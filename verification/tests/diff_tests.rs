use transportal::stream_diff::{
    details_fetch_outcome, diff_step, list_fetch_outcome, DiffAction, FetchOutcome,
};

#[test]
fn test_first_render_always_emits() {
    let (action, last) = diff_step(None, false, FetchOutcome::Rendered("<ul></ul>".to_string()));
    match action {
        DiffAction::Emit(html) => assert_eq!(html, "<ul></ul>"),
        _ => panic!("first render must be emitted"),
    }
    assert_eq!(last, Some("<ul></ul>".to_string()));
}

#[test]
fn test_diff_suppression() {
    // two consecutive byte-identical renders: the second is not emitted
    let (first, last) = diff_step(None, false, FetchOutcome::Rendered("same".to_string()));
    assert!(matches!(first, DiffAction::Emit(_)));
    let (second, last) = diff_step(last, false, FetchOutcome::Rendered("same".to_string()));
    assert!(matches!(second, DiffAction::Skip));
    assert_eq!(last, Some("same".to_string()));
}

#[test]
fn test_diff_emits_exactly_the_change() {
    let last = Some("old".to_string());
    let (action, new_last) = diff_step(last, false, FetchOutcome::Rendered("new".to_string()));
    match action {
        DiffAction::Emit(html) => assert_eq!(html, "new"),
        _ => panic!("a changed render must be emitted"),
    }
    assert_eq!(new_last, Some("new".to_string()));
}

#[test]
fn test_expired_session_ends_stream() {
    let (action, _) = diff_step(
        Some("old".to_string()),
        true,
        FetchOutcome::Rendered("new".to_string()),
    );
    assert!(matches!(action, DiffAction::End));
}

#[test]
fn test_failed_fetch_ends_stream() {
    let (action, _) = diff_step(Some("old".to_string()), false, FetchOutcome::Failed);
    assert!(matches!(action, DiffAction::End));
}

#[test]
fn test_removed_item_emits_removed_and_terminates() {
    // the removed event is the subscription's last: the action is the
    // terminal EmitRemoved, with no snapshot left behind
    let (action, last) = diff_step(Some("old".to_string()), false, FetchOutcome::Removed);
    assert!(matches!(action, DiffAction::EmitRemoved));
    assert_eq!(last, None);
}

#[test]
fn test_fetch_outcome_mappings() {
    assert!(matches!(
        list_fetch_outcome(Ok("html".to_string())),
        FetchOutcome::Rendered(h) if h == "html"
    ));
    assert!(matches!(
        list_fetch_outcome(Err(502)),
        FetchOutcome::Failed
    ));
    assert!(matches!(
        details_fetch_outcome(Ok(Some("html".to_string()))),
        FetchOutcome::Rendered(h) if h == "html"
    ));
    assert!(matches!(
        details_fetch_outcome(Ok(None)),
        FetchOutcome::Removed
    ));
    assert!(matches!(
        details_fetch_outcome(Err(502)),
        FetchOutcome::Failed
    ));
}
