use appfront::reconcile::{apply_edits, diff_summary, edit_description, reconcile_keys, ListEdit};

fn owned(keys: &[&str]) -> Vec<String> {
    keys.iter().map(|s| s.to_string()).collect()
}

fn diff_and_apply(old: &[&str], new: &[&str]) -> Vec<String> {
    let owned_old = owned(old);
    let owned_new = owned(new);
    let diff = reconcile_keys(&owned_old, &owned_new);
    apply_edits(&owned_old, &diff)
}

#[test]
fn identical_lists_are_all_keeps() {
    let old = vec!["a".to_string(), "b".to_string(), "c".to_string()];
    let diff = reconcile_keys(&old, &old);
    assert!(diff.removed.is_empty());
    assert_eq!(
        diff.edits,
        vec![
            ListEdit::Keep { key: "a".to_string() },
            ListEdit::Keep { key: "b".to_string() },
            ListEdit::Keep { key: "c".to_string() },
        ]
    );
}

#[test]
fn append_produces_insert_and_no_removes() {
    let out = diff_and_apply(&["a", "b"], &["a", "b", "c"]);
    assert_eq!(out, vec!["a", "b", "c"]);
}

#[test]
fn truncate_removes_tail() {
    let old = vec!["a".to_string(), "b".to_string(), "c".to_string()];
    let new = vec!["a".to_string()];
    let diff = reconcile_keys(&old, &new);
    assert_eq!(diff.removed, vec!["b".to_string(), "c".to_string()]);
    let out = apply_edits(&old, &diff);
    assert_eq!(out, vec!["a".to_string()]);
}

#[test]
fn reorder_is_moves_not_full_rebuild() {
    let out = diff_and_apply(&["a", "b", "c", "d"], &["d", "c", "b", "a"]);
    assert_eq!(out, vec!["d", "c", "b", "a"]);

    let old = vec!["a".to_string(), "b".to_string(), "c".to_string(), "d".to_string()];
    let new = vec!["d".to_string(), "c".to_string(), "b".to_string(), "a".to_string()];
    let diff = reconcile_keys(&old, &new);
    assert!(diff.removed.is_empty());
    assert!(diff.edits.iter().all(|e| !matches!(e, ListEdit::Insert { .. })));
}

#[test]
fn insert_in_middle_moves_following() {
    let old = vec!["a".to_string(), "b".to_string(), "c".to_string()];
    let new = vec!["a".to_string(), "x".to_string(), "b".to_string(), "c".to_string()];
    let diff = reconcile_keys(&old, &new);
    assert_eq!(diff.edits[0], ListEdit::Keep { key: "a".to_string() });
    assert_eq!(diff.edits[1], ListEdit::Insert { key: "x".to_string() });
    assert_eq!(diff.edits[2], ListEdit::Keep { key: "b".to_string() });
    let out = apply_edits(&old, &diff);
    assert_eq!(out, new);
}

#[test]
fn remove_from_middle_shifts_others_to_keep() {
    let old = vec!["a".to_string(), "b".to_string(), "c".to_string()];
    let new = vec!["a".to_string(), "c".to_string()];
    let diff = reconcile_keys(&old, &new);
    assert_eq!(diff.removed, vec!["b".to_string()]);
    assert_eq!(diff.edits[0], ListEdit::Keep { key: "a".to_string() });
    assert_eq!(diff.edits[1], ListEdit::Keep { key: "c".to_string() });
}

#[test]
fn mixed_add_remove_reorder_reproduces_new() {
    let out = diff_and_apply(&["a", "b", "c", "d", "e"], &["e", "b", "f", "d"]);
    assert_eq!(out, vec!["e", "b", "f", "d"]);
}

#[test]
fn empty_old_is_all_inserts() {
    let old: Vec<String> = vec![];
    let new = vec!["a".to_string(), "b".to_string()];
    let diff = reconcile_keys(&old, &new);
    assert!(diff.removed.is_empty());
    assert_eq!(
        diff.edits,
        vec![
            ListEdit::Insert { key: "a".to_string() },
            ListEdit::Insert { key: "b".to_string() },
        ]
    );
}

#[test]
fn edit_description_is_readable() {
    assert_eq!(edit_description(&ListEdit::Keep { key: "a".to_string() }), "kept a");
    assert_eq!(edit_description(&ListEdit::Move { key: "b".to_string() }), "moved b");
    assert_eq!(edit_description(&ListEdit::Insert { key: "c".to_string() }), "inserted c");
}

#[test]
fn diff_summary_counts_ops() {
    let old = vec!["a".to_string(), "b".to_string(), "c".to_string()];
    let new = vec!["a".to_string(), "x".to_string(), "c".to_string()];
    let diff = reconcile_keys(&old, &new);
    assert_eq!(diff_summary(&diff), "kept 2, moved 0, inserted 1, removed 1");
}

// Moves: a key that is known but not next in old order is moved, and the
// survivors it skipped over are moved when they come up.
#[test]
fn swap_of_first_two_is_one_move_one_keep() {
    let old = owned(&["a", "b", "c"]);
    let new = owned(&["b", "a", "c"]);
    let diff = reconcile_keys(&old, &new);
    assert_eq!(
        diff.edits,
        vec![
            ListEdit::Move { key: "b".to_string() },
            ListEdit::Keep { key: "a".to_string() },
            ListEdit::Keep { key: "c".to_string() },
        ]
    );
}

#[test]
fn summary_spells_multi_digit_counts() {
    let keys: Vec<String> = (0..12).map(|i| format!("k{i}")).collect();
    let diff = reconcile_keys(&Vec::<String>::new(), &keys);
    assert_eq!(diff_summary(&diff), "kept 0, moved 0, inserted 12, removed 0");
}

#[test]
fn identical_with_duplicates_still_all_keeps() {
    let old = owned(&["a", "a", "b"]);
    let diff = reconcile_keys(&old, &old);
    assert!(diff.edits.iter().all(|e| matches!(e, ListEdit::Keep { .. })));
    assert_eq!(apply_edits(&old, &diff), old);
}
