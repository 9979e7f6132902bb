use elegant_clipboard::capture::{ClipboardContent, ImageCapture, ProcessSettings};
use elegant_clipboard::capture_flow::{accepts, capture_step, CaptureAction, CaptureEvent, CaptureStage};
use elegant_clipboard::database::HashColumn;

/// Drives a capture through the given events; the actions in order and the last stage.
fn drive(
    s: &ProcessSettings,
    c: &ClipboardContent,
    events: Vec<CaptureEvent>,
) -> (Vec<CaptureAction>, CaptureStage) {
    let mut stage = CaptureStage::Start;
    let mut actions = vec![];
    for e in events {
        assert!(accepts(stage, &e));
        let (next, a) = capture_step(s, c, stage, e);
        stage = next;
        actions.push(a);
    }
    (actions, stage)
}

fn text(t: &str) -> ClipboardContent {
    ClipboardContent::Text(t.to_string())
}

#[test]
fn new_text_is_looked_up_stored_and_trimmed() {
    let s = ProcessSettings::from_values(None, None, None, Some("100"), Some("7"));
    let (a, st) = drive(
        &s,
        &text("hello"),
        vec![
            CaptureEvent::Begin,
            CaptureEvent::Hashed { repeat: false },
            CaptureEvent::Found(false),
            CaptureEvent::Stored(42),
            CaptureEvent::Done,
            CaptureEvent::Failed("disk full".into()),
        ],
    );
    assert_eq!(
        a,
        vec![
            CaptureAction::ComputeHashes,
            CaptureAction::Lookup(HashColumn::Semantic),
            CaptureAction::Store,
            CaptureAction::TrimHistory(100),
            CaptureAction::DeleteOlderThan(7),
            CaptureAction::Finish(Some(42)),
        ]
    );
    assert_eq!(st, CaptureStage::Finished);
}

#[test]
fn repeated_text_moves_to_top_and_refreshes_its_source() {
    let s = ProcessSettings::from_values(None, Some("move_to_top"), Some("strict"), None, Some("0"));
    let (a, _) = drive(
        &s,
        &text("hello"),
        vec![
            CaptureEvent::Begin,
            CaptureEvent::Hashed { repeat: false },
            CaptureEvent::Found(true),
            CaptureEvent::Touched(Some(9)),
            CaptureEvent::Refreshed,
        ],
    );
    assert_eq!(
        a,
        vec![
            CaptureAction::ComputeHashes,
            CaptureAction::Lookup(HashColumn::Content),
            CaptureAction::Touch(HashColumn::Content),
            CaptureAction::RefreshSource(9),
            CaptureAction::Finish(Some(9)),
        ]
    );
}

#[test]
fn repeated_html_refreshes_rich_fields() {
    let s = ProcessSettings::from_values(None, None, None, None, None);
    let html = ClipboardContent::Html {
        html: "<b>x</b>".into(),
        text: Some("x".into()),
        rtf: None,
        source_url: None,
    };
    let (a, _) = drive(
        &s,
        &html,
        vec![
            CaptureEvent::Begin,
            CaptureEvent::Hashed { repeat: false },
            CaptureEvent::Found(true),
            CaptureEvent::Touched(Some(3)),
            CaptureEvent::Failed("bad html".into()),
        ],
    );
    assert_eq!(a[3], CaptureAction::RefreshRich(3));
    assert_eq!(a[4], CaptureAction::Fail("bad html".into()));
}

#[test]
fn ignore_strategy_leaves_a_repeat_alone() {
    let s = ProcessSettings::from_values(None, Some("ignore"), None, None, None);
    let (a, st) = drive(
        &s,
        &text("x"),
        vec![CaptureEvent::Begin, CaptureEvent::Hashed { repeat: false }, CaptureEvent::Found(true)],
    );
    assert_eq!(a[2], CaptureAction::Finish(None));
    assert_eq!(st, CaptureStage::Finished);
    assert!(!accepts(st, &CaptureEvent::Begin));
}

#[test]
fn always_new_stores_without_looking_up() {
    let s = ProcessSettings::from_values(None, Some("always_new"), None, None, Some("0"));
    let img = ClipboardContent::ImageFile(ImageCapture {
        temp_path: "t.png".into(),
        width: 1,
        height: 1,
        byte_size: 10,
        dib_path: None,
    });
    let (a, _) = drive(
        &s,
        &img,
        vec![CaptureEvent::Begin, CaptureEvent::Hashed { repeat: false }, CaptureEvent::Stored(5)],
    );
    assert_eq!(
        a,
        vec![CaptureAction::ComputeHashes, CaptureAction::Store, CaptureAction::Finish(Some(5))]
    );
}

#[test]
fn oversized_text_and_quick_repeats_are_skipped() {
    let s = ProcessSettings::from_values(Some("1"), None, None, None, None);
    let (a, _) = drive(&s, &text(&"a".repeat(1025)), vec![CaptureEvent::Begin]);
    assert_eq!(a, vec![CaptureAction::Finish(None)]);
    let (b, _) = drive(
        &s,
        &text("short"),
        vec![CaptureEvent::Begin, CaptureEvent::Hashed { repeat: true }],
    );
    assert_eq!(b[1], CaptureAction::Finish(None));
}

#[test]
fn moved_image_finishes_with_its_id_and_lookup_failure_fails() {
    let s = ProcessSettings::from_values(None, None, None, None, None);
    let img = ClipboardContent::ImageFile(ImageCapture {
        temp_path: "t.png".into(),
        width: 1,
        height: 1,
        byte_size: 10,
        dib_path: None,
    });
    let (a, _) = drive(
        &s,
        &img,
        vec![
            CaptureEvent::Begin,
            CaptureEvent::Hashed { repeat: false },
            CaptureEvent::Found(true),
            CaptureEvent::Touched(Some(11)),
        ],
    );
    assert_eq!(a[1], CaptureAction::Lookup(HashColumn::Content));
    assert_eq!(a[3], CaptureAction::Finish(Some(11)));
    let (b, _) = drive(
        &s,
        &text("t"),
        vec![
            CaptureEvent::Begin,
            CaptureEvent::Hashed { repeat: false },
            CaptureEvent::Failed("locked".into()),
        ],
    );
    assert_eq!(b[2], CaptureAction::Fail("locked".into()));
    let (c, _) = drive(
        &s,
        &text("t"),
        vec![
            CaptureEvent::Begin,
            CaptureEvent::Hashed { repeat: false },
            CaptureEvent::Found(true),
            CaptureEvent::Touched(None),
        ],
    );
    assert_eq!(c[3], CaptureAction::Finish(None));
}
