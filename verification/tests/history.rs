use appfront::history::History;

#[test]
fn push_then_undo_redo_round_trips() {
    let mut h = History::new(0u32, None);
    h.push(1);
    h.push(2);
    assert_eq!(*h.present(), 2);
    assert!(h.can_undo());
    assert!(h.undo());
    assert_eq!(*h.present(), 1);
    assert!(h.undo());
    assert_eq!(*h.present(), 0);
    assert!(!h.can_undo());

    assert!(h.redo());
    assert_eq!(*h.present(), 1);
    assert!(h.redo());
    assert_eq!(*h.present(), 2);
    assert!(!h.can_redo());
}

#[test]
fn new_push_clears_redo() {
    let mut h = History::new(0u32, None);
    h.push(1);
    h.undo();
    assert!(h.can_redo());
    h.push(5);
    assert!(!h.can_redo());
    assert_eq!(*h.present(), 5);
}

#[test]
fn equal_push_is_noop() {
    let mut h = History::new(1u32, None);
    let depth_before = h.depth();
    h.push(1);
    assert_eq!(h.depth(), depth_before);
}

#[test]
fn limit_drops_oldest() {
    let mut h = History::new(0u32, Some(2));
    h.push(1);
    h.push(2);
    h.push(3);
    assert_eq!(h.depth(), 2);
    assert!(h.undo());
    assert_eq!(*h.present(), 2);
}

#[test]
fn undo_and_redo_on_fresh_history_do_nothing() {
    let mut h = History::new(7u32, Some(3));
    assert!(!h.undo());
    assert!(!h.redo());
    assert_eq!(*h.present(), 7);
    assert_eq!(h.depth(), 0);
}

#[test]
fn limit_zero_keeps_no_past() {
    let mut h = History::new(0u32, Some(0));
    h.push(1);
    assert_eq!(h.depth(), 0);
    assert!(!h.can_undo());
    assert_eq!(*h.present(), 1);
}

#[test]
fn redo_after_undo_restores_present_and_depth() {
    let mut h = History::new(String::from("a"), None);
    h.push(String::from("b"));
    h.push(String::from("c"));
    assert!(h.undo());
    assert!(h.redo());
    assert_eq!(h.present(), "c");
    assert_eq!(h.depth(), 2);
}
