use previewer::{
    add_item, commit_text_edit, initial_editor_text, is_blank, TextCommit, TextItemKind, Tool, PLACEHOLDER_TEXT,
    begin_style_edit, confirm_save_in_place, delete_selected, persisted_positions, redo_edit, retarget_after_save_as,
    rotate_right, search_index_after_query, save_action, search_next, search_prev, style_edit_key, undo_edit, CoalesceKey, DocumentKind, SaveAction,
    SaveConfirmations, StyleEdit, UndoStack, ViewState,
};

fn pdf(path: &str) -> ViewState {
    ViewState::Loaded { path: path.to_string(), kind: DocumentKind::Pdf }
}

#[test]
fn delete_then_undo_restores_the_items() {
    let mut items = vec!["a".to_string(), "b".to_string(), "c".to_string()];
    let mut selected = Some(1);
    let mut undo: UndoStack<Vec<String>> = UndoStack::new();
    assert!(delete_selected(&mut items, &mut selected, &mut undo));
    assert_eq!(items, vec!["a".to_string(), "c".to_string()]);
    assert_eq!(selected, None);
    assert!(undo_edit(&mut items, &mut selected, &mut undo));
    assert_eq!(items, vec!["a".to_string(), "b".to_string(), "c".to_string()]);
    assert!(redo_edit(&mut items, &mut selected, &mut undo));
    assert_eq!(items, vec!["a".to_string(), "c".to_string()]);
}

#[test]
fn delete_without_a_valid_selection_changes_nothing() {
    let mut items = vec![1u8, 2];
    let mut undo: UndoStack<Vec<u8>> = UndoStack::new();
    let mut selected = None;
    assert!(!delete_selected(&mut items, &mut selected, &mut undo));
    let mut selected = Some(5);
    assert!(delete_selected(&mut items, &mut selected, &mut undo));
    assert_eq!(selected, None);
    assert_eq!(items, vec![1, 2]);
    assert!(!undo.can_undo());
}

#[test]
fn undo_and_redo_clear_the_selection_only_when_they_act() {
    let mut items = vec![1u8];
    let mut undo: UndoStack<Vec<u8>> = UndoStack::new();
    let mut selected = Some(0);
    assert!(!undo_edit(&mut items, &mut selected, &mut undo));
    assert_eq!(selected, Some(0));
    assert!(!redo_edit(&mut items, &mut selected, &mut undo));
    undo.push(vec![7]);
    assert!(undo_edit(&mut items, &mut selected, &mut undo));
    assert_eq!(items, vec![7]);
    assert_eq!(selected, None);
}

#[test]
fn a_run_of_style_edits_is_undone_in_one_step() {
    let mut items = vec![10u8, 20];
    let mut undo: UndoStack<Vec<u8>> = UndoStack::new();
    for size in [21u8, 22, 23] {
        let t = begin_style_edit(&mut items, Some(1), true, StyleEdit::FontSize, &mut undo);
        assert_eq!(t, Some(1));
        items[1] = size;
    }
    assert_eq!(items, vec![10, 23]);
    let mut selected = Some(1);
    assert!(undo_edit(&mut items, &mut selected, &mut undo));
    assert_eq!(items, vec![10, 20]);
    assert!(!undo.can_undo());
}

#[test]
fn style_edits_need_a_fitting_selected_item() {
    let mut items = vec![1u8];
    let mut undo: UndoStack<Vec<u8>> = UndoStack::new();
    assert_eq!(begin_style_edit(&mut items, None, true, StyleEdit::StrokeColor, &mut undo), None);
    assert_eq!(begin_style_edit(&mut items, Some(0), false, StyleEdit::StrokeColor, &mut undo), None);
    assert_eq!(begin_style_edit(&mut items, Some(3), true, StyleEdit::StrokeColor, &mut undo), None);
    assert!(!undo.can_undo());
}

#[test]
fn each_style_edit_has_its_own_key() {
    assert_eq!(style_edit_key(StyleEdit::FontFamily, 2), CoalesceKey::FontFamily(2));
    assert_eq!(style_edit_key(StyleEdit::FontSize, 2), CoalesceKey::FontSize(2));
    assert_eq!(style_edit_key(StyleEdit::FontColor, 2), CoalesceKey::FontColor(2));
    assert_eq!(style_edit_key(StyleEdit::StrokeColor, 3), CoalesceKey::StrokeColor(3));
    assert_eq!(style_edit_key(StyleEdit::StrokeWidth, 3), CoalesceKey::StrokeWidth(3));
    assert_eq!(style_edit_key(StyleEdit::StrokeStyle, 3), CoalesceKey::StrokeStyle(3));
}

#[test]
fn search_next_and_prev_wrap_around() {
    assert_eq!(search_next(Some(2), 3), Some(0));
    assert_eq!(search_next(Some(0), 3), Some(1));
    assert_eq!(search_next(None, 3), Some(0));
    assert_eq!(search_next(Some(0), 0), None);
    assert_eq!(search_prev(Some(0), 3), Some(2));
    assert_eq!(search_prev(Some(2), 3), Some(1));
    assert_eq!(search_prev(None, 3), Some(2));
    assert_eq!(search_prev(None, 0), None);
}

#[test]
fn overwrite_is_asked_once_per_path() {
    let mut confirmed = SaveConfirmations::new();
    let state = pdf("/d/a.pdf");
    assert!(matches!(save_action(&state, &confirmed), SaveAction::AskBeforeOverwrite { path } if path == "/d/a.pdf"));
    assert_eq!(confirm_save_in_place(&state, &mut confirmed), Some("/d/a.pdf".to_string()));
    assert!(matches!(save_action(&state, &confirmed), SaveAction::SavePdf { path } if path == "/d/a.pdf"));
    confirmed.confirm("/d/b.pdf");
    assert!(confirmed.is_confirmed("/d/a.pdf"));
    assert!(!confirmed.is_confirmed("/d/c.pdf"));
}

#[test]
fn images_save_to_their_sidecar_and_nothing_else_saves() {
    let confirmed = SaveConfirmations::new();
    let img = ViewState::Loaded { path: "/p/x.png".to_string(), kind: DocumentKind::Image };
    assert!(matches!(save_action(&img, &confirmed), SaveAction::WriteSidecar { sidecar } if sidecar == "/p/x.png.previewer.json"));
    assert!(matches!(save_action(&ViewState::Empty, &confirmed), SaveAction::Nothing));
    let mut c = SaveConfirmations::new();
    assert_eq!(confirm_save_in_place(&img, &mut c), None);
    assert!(!c.is_confirmed("/p/x.png"));
}

#[test]
fn save_as_retargets_and_trusts_the_new_path() {
    let mut state = pdf("/d/a.pdf");
    let mut confirmed = SaveConfirmations::new();
    retarget_after_save_as(&mut state, &mut confirmed, "/d/b.pdf");
    assert!(matches!(&state, ViewState::Loaded { path, kind: DocumentKind::Pdf } if path == "/d/b.pdf"));
    assert!(matches!(save_action(&state, &confirmed), SaveAction::SavePdf { .. }));
    let mut empty = ViewState::Empty;
    retarget_after_save_as(&mut empty, &mut confirmed, "/d/c.pdf");
    assert!(matches!(empty, ViewState::Empty));
    assert!(!confirmed.is_confirmed("/d/c.pdf"));
}

#[test]
fn placeholders_are_not_persisted() {
    assert_eq!(persisted_positions(&vec![false, true, false, true]), vec![0, 2]);
    assert_eq!(persisted_positions(&vec![true]), Vec::<usize>::new());
    assert_eq!(persisted_positions(&vec![]), Vec::<usize>::new());
}

#[test]
fn a_new_search_selects_the_first_match() {
    assert_eq!(search_index_after_query(4), Some(0));
    assert_eq!(search_index_after_query(0), None);
}

#[test]
fn turning_right_four_times_comes_back() {
    let state = pdf("/d/a.pdf");
    let mut q = 0u8;
    let mut seen = Vec::new();
    for _ in 0..4 {
        q = rotate_right(&state, q);
        seen.push(q);
    }
    assert_eq!(seen, vec![1, 2, 3, 0]);
    assert_eq!(rotate_right(&ViewState::Empty, 2), 2);
}

#[test]
fn a_committed_draft_is_selected_and_the_tool_drops_to_pan() {
    let mut items = vec![1u8, 2];
    let mut selected = None;
    let mut tool = Tool::Rect;
    let mut undo: UndoStack<Vec<u8>> = UndoStack::new();
    add_item(&mut items, &mut selected, &mut tool, &mut undo, 9);
    assert_eq!(items, vec![1, 2, 9]);
    assert_eq!(selected, Some(2));
    assert_eq!(tool, Tool::Pan);
    assert!(undo_edit(&mut items, &mut selected, &mut undo));
    assert_eq!(items, vec![1, 2]);
}

#[test]
fn blank_means_only_white_space() {
    assert!(is_blank(""));
    assert!(is_blank(" \t\n\u{00A0}\u{3000}"));
    assert!(!is_blank("  x "));
}

#[test]
fn emptying_a_placeholder_brings_it_back() {
    let mut items = vec!['a', 'p'];
    let mut selected = None;
    let mut undo: UndoStack<Vec<char>> = UndoStack::new();
    let c = commit_text_edit(&mut items, &mut selected, &mut undo, Some(1), "  ", TextItemKind::Placeholder);
    assert_eq!(c, TextCommit::RestorePlaceholder(1));
    assert_eq!(selected, Some(1));
    assert_eq!(items, vec!['a', 'p']);
    assert!(undo.can_undo());
}

#[test]
fn emptying_real_text_removes_the_box() {
    let mut items = vec!['a', 't', 'b'];
    let mut selected = Some(0);
    let mut undo: UndoStack<Vec<char>> = UndoStack::new();
    let c = commit_text_edit(&mut items, &mut selected, &mut undo, Some(1), "", TextItemKind::Text);
    assert_eq!(c, TextCommit::Removed(1));
    assert_eq!(items, vec!['a', 'b']);
    assert_eq!(selected, Some(0));
    assert!(undo_edit(&mut items, &mut selected, &mut undo));
    assert_eq!(items, vec!['a', 't', 'b']);
}

#[test]
fn real_text_fills_the_box_and_selects_it() {
    let mut items = vec!['p'];
    let mut selected = None;
    let mut undo: UndoStack<Vec<char>> = UndoStack::new();
    let c = commit_text_edit(&mut items, &mut selected, &mut undo, Some(0), "hi", TextItemKind::Placeholder);
    assert_eq!(c, TextCommit::SetText(0));
    assert_eq!(selected, Some(0));
    let c = commit_text_edit(&mut items, &mut selected, &mut undo, Some(0), "hi", TextItemKind::Other);
    assert_eq!(c, TextCommit::Nothing);
    let c = commit_text_edit(&mut items, &mut selected, &mut undo, Some(7), "", TextItemKind::Placeholder);
    assert_eq!(c, TextCommit::Nothing);
}

#[test]
fn text_without_a_box_adds_one_unless_blank() {
    let mut items = vec!['a'];
    let mut selected = None;
    let mut undo: UndoStack<Vec<char>> = UndoStack::new();
    assert_eq!(commit_text_edit(&mut items, &mut selected, &mut undo, None, "x", TextItemKind::Other), TextCommit::AddNew);
    assert_eq!(commit_text_edit(&mut items, &mut selected, &mut undo, None, " ", TextItemKind::Other), TextCommit::Nothing);
    assert!(!undo.can_undo());
    assert_eq!(items, vec!['a']);
}

#[test]
fn the_editor_opens_empty_on_a_placeholder() {
    assert_eq!(initial_editor_text(true, PLACEHOLDER_TEXT), "");
    assert_eq!(initial_editor_text(false, "note"), "note");
    assert_eq!(PLACEHOLDER_TEXT, "Enter some text");
}
