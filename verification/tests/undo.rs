use previewer::{CoalesceKey, UndoStack};

#[test]
fn push_then_undo_restores_previous_state() {
    let mut s: UndoStack<i32> = UndoStack::new();
    s.push(1);
    s.push(2);
    let cur = 3;
    let restored = s.pop_undo(cur).expect("undo");
    assert_eq!(restored, 2);
}

#[test]
fn redo_inverts_undo() {
    let mut s: UndoStack<i32> = UndoStack::new();
    s.push(1);
    let after_undo = s.pop_undo(2).expect("undo");
    assert_eq!(after_undo, 1);
    let after_redo = s.pop_redo(after_undo).expect("redo");
    assert_eq!(after_redo, 2);
}

#[test]
fn fresh_push_clears_redo_branch() {
    let mut s: UndoStack<i32> = UndoStack::new();
    s.push(1);
    let _ = s.pop_undo(2);
    assert!(s.can_redo());
    s.push(99);
    assert!(!s.can_redo(), "new edit must invalidate redo");
}

#[test]
fn coalesce_collapses_same_key_runs() {
    let mut s: UndoStack<i32> = UndoStack::new();
    s.push_coalesced(CoalesceKey::FontSize(0), 10);
    s.push_coalesced(CoalesceKey::FontSize(0), 11);
    s.push_coalesced(CoalesceKey::FontSize(0), 12);
    // Three calls, but only the first snapshot was recorded.
    let restored = s.pop_undo(13).expect("undo");
    assert_eq!(restored, 10);
    assert!(!s.can_undo());
}

#[test]
fn coalesce_breaks_on_different_key() {
    let mut s: UndoStack<i32> = UndoStack::new();
    s.push_coalesced(CoalesceKey::FontSize(0), 10);
    s.push_coalesced(CoalesceKey::FontFamily(0), 20);
    s.push_coalesced(CoalesceKey::FontSize(0), 30);
    // Three logical edits, three undos.
    assert_eq!(s.pop_undo(40).unwrap(), 30);
    assert_eq!(s.pop_undo(30).unwrap(), 20);
    assert_eq!(s.pop_undo(20).unwrap(), 10);
    assert!(!s.can_undo());
}

#[test]
fn non_coalescing_push_resets_key() {
    let mut s: UndoStack<i32> = UndoStack::new();
    s.push_coalesced(CoalesceKey::FontSize(0), 10);
    s.push(20); // unrelated edit
    s.push_coalesced(CoalesceKey::FontSize(0), 30);
    // Three distinct undos because push() reset the key.
    assert_eq!(s.pop_undo(40).unwrap(), 30);
    assert_eq!(s.pop_undo(30).unwrap(), 20);
    assert_eq!(s.pop_undo(20).unwrap(), 10);
}

#[test]
fn capacity_evicts_oldest() {
    let mut s: UndoStack<i32> = UndoStack::with_capacity(2);
    s.push(1);
    s.push(2);
    s.push(3);
    // Capacity 2: pushing a 3rd evicts 1.
    assert_eq!(s.pop_undo(4).unwrap(), 3);
    assert_eq!(s.pop_undo(3).unwrap(), 2);
    assert!(!s.can_undo());
}

#[test]
fn undo_and_redo_on_empty_sides_return_none() {
    let mut s: UndoStack<i32> = UndoStack::default();
    assert!(!s.can_undo());
    assert!(!s.can_redo());
    assert_eq!(s.pop_undo(1), None);
    assert_eq!(s.pop_redo(1), None);
    // Nothing was recorded by the failed pops.
    assert!(!s.can_undo());
    assert!(!s.can_redo());
}

#[test]
fn undo_redo_undo_round_trips_state() {
    let mut s: UndoStack<&str> = UndoStack::new();
    s.push("a");
    s.push("b");
    // live state is "c"
    let u1 = s.pop_undo("c").unwrap();
    assert_eq!(u1, "b");
    let r1 = s.pop_redo(u1).unwrap();
    assert_eq!(r1, "c");
    let u2 = s.pop_undo(r1).unwrap();
    assert_eq!(u2, "b");
    let u3 = s.pop_undo(u2).unwrap();
    assert_eq!(u3, "a");
    assert!(!s.can_undo());
    assert_eq!(s.pop_redo(u3).unwrap(), "b");
    assert_eq!(s.pop_redo("b").unwrap(), "c");
    assert!(!s.can_redo());
}

#[test]
fn zero_capacity_still_keeps_one_step() {
    let mut s: UndoStack<i32> = UndoStack::with_capacity(0);
    s.push(1);
    s.push(2);
    assert_eq!(s.pop_undo(3).unwrap(), 2);
    assert!(!s.can_undo());
}

#[test]
fn undo_breaks_a_coalescing_run() {
    let mut s: UndoStack<i32> = UndoStack::new();
    s.push_coalesced(CoalesceKey::StrokeWidth(1), 5);
    let _ = s.pop_undo(6).unwrap();
    // Same key again after an undo records a fresh entry.
    s.push_coalesced(CoalesceKey::StrokeWidth(1), 7);
    assert_eq!(s.pop_undo(8).unwrap(), 7);
}

#[test]
fn clear_forgets_both_sides() {
    let mut s: UndoStack<i32> = UndoStack::new();
    s.push(1);
    s.push(2);
    let _ = s.pop_undo(3);
    assert!(s.can_undo() && s.can_redo());
    s.clear();
    assert!(!s.can_undo());
    assert!(!s.can_redo());
}

#[test]
fn history_never_exceeds_capacity() {
    let mut s: UndoStack<u32> = UndoStack::with_capacity(3);
    for i in 0..10 {
        s.push(i);
    }
    let mut count = 0;
    let mut cur = 100;
    while let Some(prev) = s.pop_undo(cur) {
        cur = prev;
        count += 1;
    }
    assert_eq!(count, 3);
    assert_eq!(cur, 7);
}
