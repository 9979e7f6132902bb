//! The course of storing one captured item, as a state machine.
//!
//! Storing a capture alternates decisions with work on the database and the disk:
//! hashing the content, asking whether it is already stored, moving a stored item to
//! the top, inserting the new record, trimming the history. The caller does that
//! work; `capture_step` takes where the capture stands and what the last piece of work
//! reported, and says what to do next.
use vstd::prelude::*;
use crate::capture::{
    content_size_spec, is_text_like, is_text_like_content, ClipboardContent, DuplicateAction,
    ProcessSettings,
};
use crate::database::HashColumn;

verus! {

/// Where the storing of one capture stands.
#[derive(Debug, Clone, Copy, PartialEq, Eq, Structural)]
pub enum CaptureStage {
    /// Nothing done yet.
    Start,
    /// Waiting for the content's hashes (and whether it repeats the last capture).
    Hashing,
    /// Waiting to hear whether the content is already stored, found by this hash.
    LookingUp(HashColumn),
    /// Waiting for the stored copy, found by this hash, to be moved to the top.
    Touching(HashColumn),
    /// Waiting for the fields of the stored item with this id to be refreshed.
    Refreshing(i64),
    /// Waiting for the new record to be stored.
    Storing,
    /// The record with this id is stored; waiting for the history to be trimmed.
    Trimming(i64),
    /// The record with this id is stored; waiting for old items to be removed.
    CleaningUp(i64),
    /// Done; nothing more is accepted.
    Finished,
}

/// What the last piece of work reported.
#[derive(Debug, Clone, PartialEq, Eq)]
pub enum CaptureEvent {
    /// The capture begins.
    Begin,
    /// The hashes are computed; `repeat` when the content repeats the capture made just
    /// before it into the same database.
    Hashed { repeat: bool },
    /// Whether the content is already stored.
    Found(bool),
    /// The stored copy was moved to the top; its id, if one was moved.
    Touched(Option<i64>),
    /// The stored item's fields were refreshed.
    Refreshed,
    /// The new record was stored under this id.
    Stored(i64),
    /// Trimming the history, or removing old items, is over (failures there are only
    /// reported, never fatal).
    Done,
    /// The work failed with this message.
    Failed(String),
}

/// What to do next.
#[derive(Debug, Clone, PartialEq, Eq)]
pub enum CaptureAction {
    /// Compute the content's hashes and whether it repeats the last capture.
    ComputeHashes,
    /// Ask whether an item with this hash is stored.
    Lookup(HashColumn),
    /// Move the stored item with this hash to the top.
    Touch(HashColumn),
    /// Refresh the rich-text fields (HTML or RTF) of the stored item with this id.
    RefreshRich(i64),
    /// Refresh the source fields (type and source application) of the stored text
    /// item with this id.
    RefreshSource(i64),
    /// Build the new record and store it.
    Store,
    /// Keep only this many items.
    TrimHistory(i64),
    /// Remove items older than this many days.
    DeleteOlderThan(i64),
    /// Stop: the stored (or moved) item's id, none when nothing was stored.
    Finish(Option<i64>),
    /// Stop with this error.
    Fail(String),
}

/// Whether the work the stage waits for can report this event.
pub open spec fn event_fits(stage: CaptureStage, event: CaptureEvent) -> bool {
    match stage {
        CaptureStage::Start => event is Begin,
        CaptureStage::Hashing => event is Hashed || event is Failed,
        CaptureStage::LookingUp(_) => event is Found || event is Failed,
        CaptureStage::Touching(_) => event is Touched || event is Failed,
        CaptureStage::Refreshing(_) => event is Refreshed || event is Failed,
        CaptureStage::Storing => event is Stored || event is Failed,
        CaptureStage::Trimming(_) => event is Done || event is Failed,
        CaptureStage::CleaningUp(_) => event is Done || event is Failed,
        CaptureStage::Finished => false,
    }
}

/// Text-like content above the configured limit is skipped.
pub open spec fn too_large(s: ProcessSettings, c: ClipboardContent) -> bool {
    s.max_content_size > 0 && is_text_like_content(c) && content_size_spec(c) > s.max_content_size
}

/// The hash that finds a stored copy (none with `always_new`).
pub open spec fn lookup_column(s: ProcessSettings, c: ClipboardContent) -> Option<HashColumn> {
    if s.dedup_strategy@ == "always_new"@ {
        None
    } else if is_text_like_content(c) && s.text_dedup_mode@ != "strict"@ {
        Some(HashColumn::Semantic)
    } else {
        Some(HashColumn::Content)
    }
}

/// After the history was trimmed (or was not to be): remove old items if configured.
pub open spec fn after_trim(s: ProcessSettings, id: i64) -> (CaptureStage, CaptureAction) {
    if s.auto_cleanup_days > 0 {
        (CaptureStage::CleaningUp(id), CaptureAction::DeleteOlderThan(s.auto_cleanup_days))
    } else {
        (CaptureStage::Finished, CaptureAction::Finish(Some(id)))
    }
}

/// After the record was stored: trim the history if configured.
pub open spec fn after_store(s: ProcessSettings, id: i64) -> (CaptureStage, CaptureAction) {
    if s.max_history_count > 0 {
        (CaptureStage::Trimming(id), CaptureAction::TrimHistory(s.max_history_count))
    } else {
        after_trim(s, id)
    }
}

/// One step of storing a capture: from the stage and what the last work reported, the
/// next stage and what to do.
pub open spec fn capture_transition(
    s: ProcessSettings,
    c: ClipboardContent,
    stage: CaptureStage,
    event: CaptureEvent,
) -> (CaptureStage, CaptureAction) {
    match (stage, event) {
        (CaptureStage::Start, _) => if too_large(s, c) {
            (CaptureStage::Finished, CaptureAction::Finish(None))
        } else {
            (CaptureStage::Hashing, CaptureAction::ComputeHashes)
        },
        (CaptureStage::Trimming(id), _) => after_trim(s, id),
        (CaptureStage::CleaningUp(id), _) => (
            CaptureStage::Finished,
            CaptureAction::Finish(Some(id)),
        ),
        (_, CaptureEvent::Failed(msg)) => (CaptureStage::Finished, CaptureAction::Fail(msg)),
        (CaptureStage::Hashing, CaptureEvent::Hashed { repeat }) => if repeat {
            (CaptureStage::Finished, CaptureAction::Finish(None))
        } else {
            match lookup_column(s, c) {
                Some(col) => (CaptureStage::LookingUp(col), CaptureAction::Lookup(col)),
                None => (CaptureStage::Storing, CaptureAction::Store),
            }
        },
        (CaptureStage::LookingUp(col), CaptureEvent::Found(found)) => if !found {
            (CaptureStage::Storing, CaptureAction::Store)
        } else if s.dedup_strategy@ == "ignore"@ {
            (CaptureStage::Finished, CaptureAction::Finish(None))
        } else {
            (CaptureStage::Touching(col), CaptureAction::Touch(col))
        },
        (CaptureStage::Touching(_), CaptureEvent::Touched(moved)) => match moved {
            Some(id) => match c {
                ClipboardContent::Html { .. } => (
                    CaptureStage::Refreshing(id),
                    CaptureAction::RefreshRich(id),
                ),
                ClipboardContent::Rtf { .. } => (
                    CaptureStage::Refreshing(id),
                    CaptureAction::RefreshRich(id),
                ),
                ClipboardContent::Text(_) => (
                    CaptureStage::Refreshing(id),
                    CaptureAction::RefreshSource(id),
                ),
                _ => (CaptureStage::Finished, CaptureAction::Finish(Some(id))),
            },
            None => (CaptureStage::Finished, CaptureAction::Finish(None)),
        },
        (CaptureStage::Refreshing(id), _) => (
            CaptureStage::Finished,
            CaptureAction::Finish(Some(id)),
        ),
        (CaptureStage::Storing, CaptureEvent::Stored(id)) => after_store(s, id),
        _ => (stage, CaptureAction::Finish(None)),
    }
}

/// Whether the work the stage waits for can report this event.
pub fn accepts(stage: CaptureStage, event: &CaptureEvent) -> (b: bool)
    ensures
        b == event_fits(stage, *event),
{
    match stage {
        CaptureStage::Start => matches!(event, CaptureEvent::Begin),
        CaptureStage::Hashing => matches!(event, CaptureEvent::Hashed { .. } | CaptureEvent::Failed(_)),
        CaptureStage::LookingUp(_) => matches!(event, CaptureEvent::Found(_) | CaptureEvent::Failed(_)),
        CaptureStage::Touching(_) => matches!(event, CaptureEvent::Touched(_) | CaptureEvent::Failed(_)),
        CaptureStage::Refreshing(_) => matches!(event, CaptureEvent::Refreshed | CaptureEvent::Failed(_)),
        CaptureStage::Storing => matches!(event, CaptureEvent::Stored(_) | CaptureEvent::Failed(_)),
        CaptureStage::Trimming(_) | CaptureStage::CleaningUp(_) => matches!(
            event,
            CaptureEvent::Done | CaptureEvent::Failed(_)
        ),
        CaptureStage::Finished => false,
    }
}

fn after_trim_step(settings: &ProcessSettings, id: i64) -> (r: (CaptureStage, CaptureAction))
    ensures
        r == after_trim(*settings, id),
{
    if settings.cleans_up_old_items() {
        (CaptureStage::CleaningUp(id), CaptureAction::DeleteOlderThan(settings.auto_cleanup_days))
    } else {
        (CaptureStage::Finished, CaptureAction::Finish(Some(id)))
    }
}

/// One step of storing a capture (see `capture_transition`). The caller does the work
/// the action names, and reports how it went as the next event.
pub fn capture_step(
    settings: &ProcessSettings,
    content: &ClipboardContent,
    stage: CaptureStage,
    event: CaptureEvent,
) -> (r: (CaptureStage, CaptureAction))
    requires
        event_fits(stage, event),
    ensures
        r == capture_transition(*settings, *content, stage, event),
{
    match stage {
        CaptureStage::Start => {
            if settings.exceeds_content_limit(content) {
                (CaptureStage::Finished, CaptureAction::Finish(None))
            } else {
                (CaptureStage::Hashing, CaptureAction::ComputeHashes)
            }
        },
        CaptureStage::Trimming(id) => after_trim_step(settings, id),
        CaptureStage::CleaningUp(id) => (CaptureStage::Finished, CaptureAction::Finish(Some(id))),
        _ => match event {
            CaptureEvent::Failed(msg) => (CaptureStage::Finished, CaptureAction::Fail(msg)),
            CaptureEvent::Hashed { repeat } => {
                if repeat {
                    (CaptureStage::Finished, CaptureAction::Finish(None))
                } else {
                    match settings.duplicate_lookup(is_text_like(content)) {
                        Some(col) => (CaptureStage::LookingUp(col), CaptureAction::Lookup(col)),
                        None => (CaptureStage::Storing, CaptureAction::Store),
                    }
                }
            },
            CaptureEvent::Found(found) => {
                let col = match stage {
                    CaptureStage::LookingUp(col) => col,
                    _ => HashColumn::Content,
                };
                if !found {
                    (CaptureStage::Storing, CaptureAction::Store)
                } else {
                    match settings.on_duplicate() {
                        DuplicateAction::Ignore => (
                            CaptureStage::Finished,
                            CaptureAction::Finish(None),
                        ),
                        DuplicateAction::MoveToTop => (
                            CaptureStage::Touching(col),
                            CaptureAction::Touch(col),
                        ),
                    }
                }
            },
            CaptureEvent::Touched(moved) => match moved {
                Some(id) => match content {
                    ClipboardContent::Html { .. } | ClipboardContent::Rtf { .. } => (
                        CaptureStage::Refreshing(id),
                        CaptureAction::RefreshRich(id),
                    ),
                    ClipboardContent::Text(_) => (
                        CaptureStage::Refreshing(id),
                        CaptureAction::RefreshSource(id),
                    ),
                    _ => (CaptureStage::Finished, CaptureAction::Finish(Some(id))),
                },
                None => (CaptureStage::Finished, CaptureAction::Finish(None)),
            },
            CaptureEvent::Refreshed => {
                let id = match stage {
                    CaptureStage::Refreshing(id) => id,
                    _ => 0,
                };
                (CaptureStage::Finished, CaptureAction::Finish(Some(id)))
            },
            CaptureEvent::Stored(id) => {
                if settings.limits_history() {
                    (CaptureStage::Trimming(id), CaptureAction::TrimHistory(settings.max_history_count))
                } else {
                    after_trim_step(settings, id)
                }
            },
            _ => (stage, CaptureAction::Finish(None)),
        },
    }
}

// ------------------------------------------------------------------ runs

/// The actions that a run of reported events gives, from a stage on; the run stops at
/// the first event that the stage cannot take.
pub open spec fn run_actions(
    s: ProcessSettings,
    c: ClipboardContent,
    stage: CaptureStage,
    events: Seq<CaptureEvent>,
) -> Seq<CaptureAction>
    decreases events.len(),
{
    if events.len() == 0 || !event_fits(stage, events[0]) {
        seq![]
    } else {
        let (next, a) = capture_transition(s, c, stage, events[0]);
        seq![a] + run_actions(s, c, next, events.drop_first())
    }
}

pub open spec fn ends_run(a: CaptureAction) -> bool {
    a is Finish || a is Fail
}

/// Stages never reached when every capture is stored as new.
pub open spec fn dedup_stage(stage: CaptureStage) -> bool {
    stage is LookingUp || stage is Touching || stage is Refreshing
}

proof fn lemma_no_dedup_from(
    s: ProcessSettings,
    c: ClipboardContent,
    stage: CaptureStage,
    events: Seq<CaptureEvent>,
)
    requires
        s.dedup_strategy@ == "always_new"@,
        !dedup_stage(stage),
    ensures
        forall|i: int|
            0 <= i < run_actions(s, c, stage, events).len() ==> !(#[trigger] run_actions(
                s,
                c,
                stage,
                events,
            )[i] is Lookup) && !(run_actions(s, c, stage, events)[i] is Touch),
    decreases events.len(),
{
    if events.len() > 0 && event_fits(stage, events[0]) {
        let (next, a) = capture_transition(s, c, stage, events[0]);
        lemma_no_dedup_from(s, c, next, events.drop_first());
        let rest = run_actions(s, c, next, events.drop_first());
        assert(run_actions(s, c, stage, events) == seq![a] + rest);
    }
}

/// With `always_new`, storing a capture never looks for a stored copy and never moves
/// one to the top, whatever the work reports.
pub proof fn lemma_always_new_never_looks_up(
    s: ProcessSettings,
    c: ClipboardContent,
    events: Seq<CaptureEvent>,
)
    requires
        s.dedup_strategy@ == "always_new"@,
    ensures
        forall|i: int|
            0 <= i < run_actions(s, c, CaptureStage::Start, events).len() ==> !(
            #[trigger] run_actions(s, c, CaptureStage::Start, events)[i] is Lookup) && !(
            run_actions(s, c, CaptureStage::Start, events)[i] is Touch),
{
    lemma_no_dedup_from(s, c, CaptureStage::Start, events);
}

pub open spec fn touch_side(stage: CaptureStage) -> bool {
    stage is Touching || stage is Refreshing || stage is Finished
}

pub open spec fn store_side(stage: CaptureStage) -> bool {
    stage is Storing || stage is Trimming || stage is CleaningUp || stage is Finished
}

proof fn lemma_touch_side_never_stores(
    s: ProcessSettings,
    c: ClipboardContent,
    stage: CaptureStage,
    events: Seq<CaptureEvent>,
)
    requires
        touch_side(stage),
    ensures
        forall|i: int|
            0 <= i < run_actions(s, c, stage, events).len() ==> !(#[trigger] run_actions(
                s,
                c,
                stage,
                events,
            )[i] is Store),
    decreases events.len(),
{
    if events.len() > 0 && event_fits(stage, events[0]) {
        let (next, a) = capture_transition(s, c, stage, events[0]);
        lemma_touch_side_never_stores(s, c, next, events.drop_first());
        assert(run_actions(s, c, stage, events) == seq![a] + run_actions(
            s,
            c,
            next,
            events.drop_first(),
        ));
    }
}

proof fn lemma_store_side_never_touches(
    s: ProcessSettings,
    c: ClipboardContent,
    stage: CaptureStage,
    events: Seq<CaptureEvent>,
)
    requires
        store_side(stage),
    ensures
        forall|i: int|
            0 <= i < run_actions(s, c, stage, events).len() ==> !(#[trigger] run_actions(
                s,
                c,
                stage,
                events,
            )[i] is Touch),
    decreases events.len(),
{
    if events.len() > 0 && event_fits(stage, events[0]) {
        let (next, a) = capture_transition(s, c, stage, events[0]);
        lemma_store_side_never_touches(s, c, next, events.drop_first());
        assert(run_actions(s, c, stage, events) == seq![a] + run_actions(
            s,
            c,
            next,
            events.drop_first(),
        ));
    }
}

proof fn lemma_store_or_touch_from(
    s: ProcessSettings,
    c: ClipboardContent,
    stage: CaptureStage,
    events: Seq<CaptureEvent>,
)
    requires
        stage is Start || stage is Hashing || stage is LookingUp,
    ensures
        !exists|i: int, j: int|
            0 <= i < run_actions(s, c, stage, events).len() && 0 <= j < run_actions(
                s,
                c,
                stage,
                events,
            ).len() && #[trigger] run_actions(s, c, stage, events)[i] is Store
                && #[trigger] run_actions(s, c, stage, events)[j] is Touch,
    decreases events.len(),
{
    if events.len() > 0 && event_fits(stage, events[0]) {
        let (next, a) = capture_transition(s, c, stage, events[0]);
        let rest = run_actions(s, c, next, events.drop_first());
        let all = run_actions(s, c, stage, events);
        assert(all == seq![a] + rest);
        if next is Start || next is Hashing || next is LookingUp {
            lemma_store_or_touch_from(s, c, next, events.drop_first());
            assert(!(a is Store) && !(a is Touch));
            assert forall|i: int, j: int|
                0 <= i < all.len() && 0 <= j < all.len() && #[trigger] all[i] is Store implies !(
                #[trigger] all[j] is Touch) by {
                assert(i > 0);
                if j > 0 {
                    assert(all[i] == rest[i - 1]);
                    assert(all[j] == rest[j - 1]);
                }
            }
        } else if touch_side(next) {
            lemma_touch_side_never_stores(s, c, next, events.drop_first());
            assert forall|i: int, j: int|
                0 <= i < all.len() && 0 <= j < all.len() && #[trigger] all[i] is Store implies !(
                #[trigger] all[j] is Touch) by {
                assert(!(a is Store));
                assert(i > 0);
                assert(all[i] == rest[i - 1]);
            }
        } else {
            assert(store_side(next));
            lemma_store_side_never_touches(s, c, next, events.drop_first());
            assert forall|i: int, j: int|
                0 <= i < all.len() && 0 <= j < all.len() && #[trigger] all[i] is Store implies !(
                #[trigger] all[j] is Touch) by {
                assert(!(a is Touch));
                if j > 0 {
                    assert(all[j] == rest[j - 1]);
                }
            }
        }
    }
}

/// A capture is either stored as a new item or moves the stored copy to the top,
/// never both.
pub proof fn lemma_stored_or_moved_never_both(
    s: ProcessSettings,
    c: ClipboardContent,
    events: Seq<CaptureEvent>,
)
    ensures
        !exists|i: int, j: int|
            0 <= i < run_actions(s, c, CaptureStage::Start, events).len() && 0 <= j
                < run_actions(s, c, CaptureStage::Start, events).len() && #[trigger] run_actions(
                s,
                c,
                CaptureStage::Start,
                events,
            )[i] is Store && #[trigger] run_actions(s, c, CaptureStage::Start, events)[j] is Touch,
{
    lemma_store_or_touch_from(s, c, CaptureStage::Start, events);
}

/// Storing a capture stops once: an action that stops it is the last of the run.
pub proof fn lemma_stop_is_last(
    s: ProcessSettings,
    c: ClipboardContent,
    stage: CaptureStage,
    events: Seq<CaptureEvent>,
)
    ensures
        forall|i: int|
            0 <= i < run_actions(s, c, stage, events).len() && ends_run(
                #[trigger] run_actions(s, c, stage, events)[i],
            ) ==> i == run_actions(s, c, stage, events).len() - 1,
    decreases events.len(),
{
    if events.len() > 0 && event_fits(stage, events[0]) {
        let (next, a) = capture_transition(s, c, stage, events[0]);
        lemma_stop_is_last(s, c, next, events.drop_first());
        let rest = run_actions(s, c, next, events.drop_first());
        let all = run_actions(s, c, stage, events);
        assert(all == seq![a] + rest);
        if ends_run(a) {
            assert(next is Finished);
            assert(rest.len() == 0);
        }
        assert forall|i: int| 0 <= i < all.len() && ends_run(#[trigger] all[i]) implies i == all.len()
            - 1 by {
            if i > 0 {
                assert(all[i] == rest[i - 1]);
            }
        }
    }
}

} // verus!
