use funfriend::dialogue::{DialogueSequencer, CHATTER_INTERVAL_MS};

#[test]
fn two_lines_in_order() {
    // Enqueueing [["hi"], ["bye"]] and ticking past two cadence intervals
    // emits exactly "hi" then "bye"; speaking ends only after the second.
    let mut seq = DialogueSequencer::new();
    assert!(!seq.is_speaking());
    seq.enqueue(&vec![vec!["hi".to_string()], vec!["bye".to_string()]]);
    assert!(seq.is_speaking());

    let first = seq.tick(CHATTER_INTERVAL_MS);
    assert_eq!(first, Some("hi".to_string()));
    assert!(seq.is_speaking());

    let second = seq.tick(CHATTER_INTERVAL_MS);
    assert_eq!(second, Some("bye".to_string()));
    assert!(!seq.is_speaking());
}

#[test]
fn cadence_holds_lines_back() {
    let mut seq = DialogueSequencer::new();
    seq.enqueue(&vec![vec!["one".to_string(), "two".to_string()]]);
    // the replaced queue begins immediately
    assert_eq!(seq.tick(0), Some("one".to_string()));
    // the next line waits out the full cadence
    assert_eq!(seq.tick(CHATTER_INTERVAL_MS - 1), None);
    assert_eq!(seq.tick(1), Some("two".to_string()));
    assert!(!seq.is_speaking());
}

#[test]
fn cadence_carries_overshoot() {
    // an overshot frame shortens the next wait, keeping emissions on an
    // exact cadence; a whole missed interval floors the timer at zero
    let mut seq = DialogueSequencer::new();
    seq.enqueue(&vec![vec!["a".to_string(), "b".to_string(), "c".to_string()]]);
    assert_eq!(seq.tick(500), Some("a".to_string()));
    assert_eq!(seq.tick(2499), None);
    assert_eq!(seq.tick(1), Some("b".to_string()));
    assert_eq!(seq.tick(2 * CHATTER_INTERVAL_MS), Some("c".to_string()));
    assert!(!seq.is_speaking());
}

#[test]
fn enqueue_replaces_wholesale() {
    let mut seq = DialogueSequencer::new();
    seq.enqueue(&vec![vec!["old".to_string()]]);
    seq.enqueue(&vec![vec!["new".to_string()]]);
    assert_eq!(seq.tick(CHATTER_INTERVAL_MS), Some("new".to_string()));
    assert_eq!(seq.tick(CHATTER_INTERVAL_MS), None);
}

#[test]
fn empty_queue_never_speaks() {
    let mut seq = DialogueSequencer::new();
    assert_eq!(seq.tick(CHATTER_INTERVAL_MS), None);
    assert!(!seq.is_speaking());
}

#[test]
fn enqueue_flattens_groups() {
    let mut seq = DialogueSequencer::new();
    seq.enqueue(&vec![
        vec!["a".to_string(), "b".to_string()],
        vec!["c".to_string()],
    ]);
    assert_eq!(seq.tick(CHATTER_INTERVAL_MS), Some("a".to_string()));
    assert_eq!(seq.tick(CHATTER_INTERVAL_MS), Some("b".to_string()));
    assert!(seq.is_speaking());
    assert_eq!(seq.tick(CHATTER_INTERVAL_MS), Some("c".to_string()));
    assert!(!seq.is_speaking());
}
