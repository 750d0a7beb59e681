//! The editing decisions of the viewer, kept apart from the toolkit and
//! from the geometry of the annotations (any item type `A` will do):
//! deleting the selection, undo and redo, the undo step each style edit
//! records, stepping through search matches, and when saving in place asks
//! first.
use vstd::prelude::*;

use crate::sidecar::{sidecar_path, sidecar_suffix};
use crate::text::same_text;
use crate::ui::{DocumentKind, Tool, ViewState};
use crate::undo::{CoalesceKey, UndoHistory, UndoStack};

verus! {

/// `b` is a clone of `a`, item by item.
pub open spec fn clones_of<A: Clone>(a: Seq<A>, b: Seq<A>) -> bool {
    &&& a.len() == b.len()
    &&& forall|i: int| 0 <= i < a.len() ==> cloned::<A>(a[i], #[trigger] b[i])
}

/// A clone of `v` that the caller keeps while `v` itself goes on.
fn clone_items<A: Clone>(v: &Vec<A>) -> (c: Vec<A>)
    ensures
        clones_of(v@, c@),
{
    let c = v.clone();
    proof {
        assert forall|i: int| 0 <= i < v@.len() implies cloned::<A>(v@[i], #[trigger] c@[i]) by {
            assert(cloned::<A>(v[i], c[i]));
        }
    }
    c
}

/// The selection `sel` names an item of a list of `n` items.
pub open spec fn names_item(sel: Option<usize>, n: nat) -> bool {
    sel matches Some(i) && i < n
}

/// Deleting the selected item of `items` (history `h`) left `items2` and the
/// history `h2`: the items as they were are recorded for undo, and the rest
/// go on, in order, as clones; without a selected item nothing changes.
pub open spec fn delete_happened<A: Clone>(
    items: Vec<A>,
    sel: Option<usize>,
    h: UndoHistory<Vec<A>>,
    items2: Vec<A>,
    h2: UndoHistory<Vec<A>>,
) -> bool {
    if names_item(sel, items@.len()) {
        &&& h2 == h.pushed(items)
        &&& clones_of(items@.remove(sel->0 as int), items2@)
    } else {
        &&& h2 == h
        &&& items2 == items
    }
}

/// An undo on `items` (history `h`) left `items2` and `h2`, `changed` telling
/// whether there was anything to undo: the last recorded items come back and
/// the displaced ones go to the redo side.
pub open spec fn undo_happened<A>(
    items: Vec<A>,
    h: UndoHistory<Vec<A>>,
    items2: Vec<A>,
    h2: UndoHistory<Vec<A>>,
    changed: bool,
) -> bool {
    &&& changed == (h.past.len() > 0)
    &&& changed ==> items2 == h.past.last() && h2 == h.undone(items)
    &&& !changed ==> items2 == items && h2 == h
}

/// A redo on `items` (history `h`) left `items2` and `h2`, `changed` telling
/// whether there was anything to redo.
pub open spec fn redo_happened<A>(
    items: Vec<A>,
    h: UndoHistory<Vec<A>>,
    items2: Vec<A>,
    h2: UndoHistory<Vec<A>>,
    changed: bool,
) -> bool {
    &&& changed == (h.future.len() > 0)
    &&& changed ==> items2 == h.future.last() && h2 == h.redone(items)
    &&& !changed ==> items2 == items && h2 == h
}

/// Delete the selected item, recording the items as they were for undo
/// first; the selection is cleared either way. Returns whether there was a
/// selection (the caller then drops a drag in progress).
pub fn delete_selected<A: Clone>(
    items: &mut Vec<A>,
    selected: &mut Option<usize>,
    undo: &mut UndoStack<Vec<A>>,
) -> (had_selection: bool)
    ensures
        had_selection == (*old(selected) is Some),
        *final(selected) is None,
        delete_happened(*old(items), *old(selected), old(undo)@, *final(items), final(undo)@),
        *old(selected) matches Some(i) ==> i < old(items)@.len() ==> {
            &&& final(items)@.len() == old(items)@.len() - 1
            &&& forall|j: int| 0 <= j < i ==> cloned::<A>(old(items)@[j], #[trigger] final(items)@[j])
            &&& forall|j: int| i <= j < old(items)@.len() - 1 ==> cloned::<A>(old(items)@[j + 1], #[trigger] final(items)@[j])
        },
{
    let sel = *selected;
    *selected = None;
    match sel {
        Some(idx) => {
            if idx < items.len() {
                let mut before: Vec<A> = Vec::new();
                std::mem::swap(&mut before, items);
                let mut rest = clone_items(&before);
                rest.remove(idx);
                let ghost b = before@;
                proof {
                    assert forall|i: int| 0 <= i < b.remove(idx as int).len() implies cloned::<A>(
                        b.remove(idx as int)[i],
                        #[trigger] rest@[i],
                    ) by {
                        if i >= idx {
                            assert(cloned::<A>(b[i + 1], rest@[i]));
                        }
                    }
                }
                undo.push(before);
                *items = rest;
            }
            true
        },
        None => false,
    }
}

/// Undo the last recorded edit: the recorded items come back, the current
/// ones go to the redo side, and the selection is cleared. Returns whether
/// there was anything to undo (the caller then drops drafts and drags);
/// nothing changes when there was not.
pub fn undo_edit<A: Clone>(items: &mut Vec<A>, selected: &mut Option<usize>, undo: &mut UndoStack<Vec<A>>) -> (changed:
    bool)
    ensures
        undo_happened(*old(items), old(undo)@, *final(items), final(undo)@, changed),
        changed ==> *final(selected) is None,
        !changed ==> *final(selected) == *old(selected),
{
    if !undo.can_undo() {
        return false;
    }
    let mut current: Vec<A> = Vec::new();
    std::mem::swap(&mut current, items);
    let prev = undo.pop_undo(current);
    if let Some(p) = prev {
        *items = p;
    }
    *selected = None;
    true
}

/// Redo the last undone edit, the counterpart of `undo_edit`.
pub fn redo_edit<A: Clone>(items: &mut Vec<A>, selected: &mut Option<usize>, undo: &mut UndoStack<Vec<A>>) -> (changed:
    bool)
    ensures
        redo_happened(*old(items), old(undo)@, *final(items), final(undo)@, changed),
        changed ==> *final(selected) is None,
        !changed ==> *final(selected) == *old(selected),
{
    if !undo.can_redo() {
        return false;
    }
    let mut current: Vec<A> = Vec::new();
    std::mem::swap(&mut current, items);
    let next = undo.pop_redo(current);
    if let Some(n) = next {
        *items = n;
    }
    *selected = None;
    true
}

/// Deleting the selected item `i` removes exactly that item: the items
/// before it stay where they were, those after it move one place up, each
/// as a clone of itself; the items as they were are what an undo gives back.
pub proof fn lemma_delete_removes_the_selected_item<A: Clone>(
    items: Vec<A>,
    i: usize,
    h: UndoHistory<Vec<A>>,
    items2: Vec<A>,
    h2: UndoHistory<Vec<A>>,
)
    requires
        h.wf(),
        i < items@.len(),
        delete_happened(items, Some(i), h, items2, h2),
    ensures
        items2@.len() == items@.len() - 1,
        forall|j: int| 0 <= j < i ==> cloned::<A>(items@[j], #[trigger] items2@[j]),
        forall|j: int| i <= j < items@.len() - 1 ==> cloned::<A>(items@[j + 1], #[trigger] items2@[j]),
        h2.past.len() > 0,
        h2.past.last() == items,
        h2.future.len() == 0,
{
    assert forall|j: int| 0 <= j < i implies cloned::<A>(items@[j], #[trigger] items2@[j]) by {
        assert(items@.remove(i as int)[j] == items@[j]);
    }
    assert forall|j: int| i <= j < items@.len() - 1 implies cloned::<A>(items@[j + 1], #[trigger] items2@[j]) by {
        assert(items@.remove(i as int)[j] == items@[j + 1]);
    }
}

/// Undo right after deleting the selected item gives the items back as
/// they were, and a redo then deletes it again.
pub proof fn lemma_undo_after_delete_restores<A: Clone>(
    items: Vec<A>,
    sel: Option<usize>,
    h: UndoHistory<Vec<A>>,
    items1: Vec<A>,
    h1: UndoHistory<Vec<A>>,
    items2: Vec<A>,
    h2: UndoHistory<Vec<A>>,
    changed: bool,
)
    requires
        h.wf(),
        names_item(sel, items@.len()),
        delete_happened(items, sel, h, items1, h1),
        undo_happened(items1, h1, items2, h2, changed),
    ensures
        changed,
        items2 == items,
        h2.future.len() > 0,
        h2.future.last() == items1,
{
}

/// Which style a toolbar edit changes.
#[derive(Debug, Clone, Copy, PartialEq, Eq, Structural)]
pub enum StyleEdit {
    FontFamily,
    FontSize,
    FontColor,
    StrokeColor,
    StrokeWidth,
    StrokeStyle,
}

/// The undo key an edit of `edit` on item `idx` coalesces under, so that a
/// run of such edits (a spinner being dragged) is undone in one step.
pub open spec fn style_key(edit: StyleEdit, idx: usize) -> CoalesceKey {
    match edit {
        StyleEdit::FontFamily => CoalesceKey::FontFamily(idx),
        StyleEdit::FontSize => CoalesceKey::FontSize(idx),
        StyleEdit::FontColor => CoalesceKey::FontColor(idx),
        StyleEdit::StrokeColor => CoalesceKey::StrokeColor(idx),
        StyleEdit::StrokeWidth => CoalesceKey::StrokeWidth(idx),
        StyleEdit::StrokeStyle => CoalesceKey::StrokeStyle(idx),
    }
}

/// The undo key for an edit of `edit` on item `idx`.
pub fn style_edit_key(edit: StyleEdit, idx: usize) -> (k: CoalesceKey)
    ensures
        k == style_key(edit, idx),
{
    match edit {
        StyleEdit::FontFamily => CoalesceKey::FontFamily(idx),
        StyleEdit::FontSize => CoalesceKey::FontSize(idx),
        StyleEdit::FontColor => CoalesceKey::FontColor(idx),
        StyleEdit::StrokeColor => CoalesceKey::StrokeColor(idx),
        StyleEdit::StrokeWidth => CoalesceKey::StrokeWidth(idx),
        StyleEdit::StrokeStyle => CoalesceKey::StrokeStyle(idx),
    }
}

/// The item a style edit applies to: the selected one, when it is an item
/// of the list and takes this kind of edit (`fits`: a text annotation for a
/// font edit, a shape with a stroke for a stroke edit); none otherwise, and
/// then only the defaults for new items change.
pub open spec fn style_target(selected: Option<usize>, n: nat, fits: bool) -> Option<usize> {
    if names_item(selected, n) && fits {
        selected
    } else {
        None
    }
}

/// Before a style edit: when it applies to the selected item, record the
/// items as they are for undo under the edit's key (a run of edits with one
/// key records once) and go on with clones of them, which the caller then
/// edits at the returned position. Nothing changes when the edit applies to
/// no item.
pub fn begin_style_edit<A: Clone>(
    items: &mut Vec<A>,
    selected: Option<usize>,
    fits: bool,
    edit: StyleEdit,
    undo: &mut UndoStack<Vec<A>>,
) -> (target: Option<usize>)
    ensures
        target == style_target(selected, old(items)@.len(), fits),
        target matches Some(i) ==> final(undo)@ == old(undo)@.pushed_coalesced(style_key(edit, i), *old(items))
            && clones_of(old(items)@, final(items)@),
        target is None ==> final(undo)@ == old(undo)@ && *final(items) == *old(items),
{
    match selected {
        Some(idx) => {
            if idx < items.len() && fits {
                let mut before: Vec<A> = Vec::new();
                std::mem::swap(&mut before, items);
                let copy = clone_items(&before);
                let key = style_edit_key(edit, idx);
                undo.push_coalesced(key, before);
                *items = copy;
                Some(idx)
            } else {
                None
            }
        },
        None => None,
    }
}

/// Undo right after a style edit that began a new run gives back the items
/// as they were before it.
pub proof fn lemma_undo_after_style_edit_restores<A>(
    items: Vec<A>,
    h: UndoHistory<Vec<A>>,
    key: CoalesceKey,
    items1: Vec<A>,
    items2: Vec<A>,
    h2: UndoHistory<Vec<A>>,
    changed: bool,
)
    requires
        h.wf(),
        h.last_key != Some(key),
        undo_happened(items1, h.pushed_coalesced(key, items), items2, h2, changed),
    ensures
        changed,
        items2 == items,
{
}

/// The match after match `i` of `n`, wrapping from the last to the first;
/// the first when none is selected; `None` when there are no matches, and
/// the selection stays as it is.
pub open spec fn next_match(i: Option<usize>, n: nat) -> Option<usize> {
    if n == 0 {
        None
    } else {
        Some(
            match i {
                Some(i) => ((i + 1) % (n as int)) as usize,
                None => 0,
            },
        )
    }
}

/// The match before match `i` of `n`, wrapping from the first to the last;
/// the last when none is selected; `None` when there are no matches.
pub open spec fn prev_match(i: Option<usize>, n: nat) -> Option<usize> {
    if n == 0 {
        None
    } else {
        Some(
            match i {
                Some(i) => ((i + n - 1) % (n as int)) as usize,
                None => (n - 1) as usize,
            },
        )
    }
}

/// The search match to select after `current` among `n` matches.
pub fn search_next(current: Option<usize>, n: usize) -> (r: Option<usize>)
    requires
        current matches Some(i) ==> i < usize::MAX,
    ensures
        r == next_match(current, n as nat),
{
    if n == 0 {
        return None;
    }
    match current {
        Some(i) => Some((i + 1) % n),
        None => Some(0),
    }
}

/// The search match to select before `current` among `n` matches.
pub fn search_prev(current: Option<usize>, n: usize) -> (r: Option<usize>)
    requires
        current matches Some(i) ==> i + n - 1 <= usize::MAX,
    ensures
        r == prev_match(current, n as nat),
{
    if n == 0 {
        return None;
    }
    match current {
        Some(i) => Some((i + (n - 1)) % n),
        None => Some(n - 1),
    }
}

/// Stepping through the matches wraps at both ends, stays among the
/// matches, and a step back undoes a step forward.
pub proof fn lemma_search_steps_wrap(i: usize, n: nat)
    requires
        i < n,
        n <= usize::MAX,
    ensures
        next_match(Some(i), n) matches Some(j) && j < n,
        prev_match(Some(i), n) matches Some(j) && j < n,
        i == n - 1 ==> next_match(Some(i), n) == Some(0usize),
        i == 0 ==> prev_match(Some(i), n) == Some((n - 1) as usize),
        prev_match(next_match(Some(i), n), n) == Some(i),
        next_match(prev_match(Some(i), n), n) == Some(i),
{
    let ni = n as int;
    let ii = i as int;
    let j = (ii + 1) % ni;
    let k = (ii + ni - 1) % ni;
    assert(j == if ii + 1 == ni { 0 } else { ii + 1 }) by (nonlinear_arith)
        requires
            0 <= ii < ni,
            j == (ii + 1) % ni,
    ;
    assert(k == if ii == 0 { ni - 1 } else { ii - 1 }) by (nonlinear_arith)
        requires
            0 <= ii < ni,
            k == (ii + ni - 1) % ni,
    ;
    assert((j + ni - 1) % ni == ii) by (nonlinear_arith)
        requires
            0 <= ii < ni,
            j == if ii + 1 == ni { 0 } else { ii + 1 },
    ;
    assert((k + 1) % ni == ii) by (nonlinear_arith)
        requires
            0 <= ii < ni,
            k == if ii == 0 { ni - 1 } else { ii - 1 },
    ;
}

/// The paths the user has confirmed, this session, may be overwritten in
/// place. A PDF is saved in place only after such a confirmation, asked for
/// once per path.
pub struct SaveConfirmations {
    paths: Vec<String>,
}

impl View for SaveConfirmations {
    type V = Set<Seq<char>>;

    closed spec fn view(&self) -> Set<Seq<char>> {
        Set::new(|p: Seq<char>| exists|i: int| 0 <= i < self.paths@.len() && #[trigger] self.paths@[i]@ == p)
    }
}

impl SaveConfirmations {
    /// No path confirmed yet.
    pub fn new() -> (c: Self)
        ensures
            c@ == Set::<Seq<char>>::empty(),
    {
        let c = SaveConfirmations { paths: Vec::new() };
        proof {
            assert(c@ =~= Set::<Seq<char>>::empty());
        }
        c
    }

    /// Whether `path` has been confirmed.
    pub fn is_confirmed(&self, path: &str) -> (b: bool)
        ensures
            b == self@.contains(path@),
    {
        let mut i: usize = 0;
        while i < self.paths.len()
            invariant
                i <= self.paths@.len(),
                forall|j: int| 0 <= j < i ==> self.paths@[j]@ != path@,
            decreases self.paths.len() - i,
        {
            if same_text(self.paths[i].as_str(), path) {
                assert(self.paths@[i as int]@ == path@);
                return true;
            }
            i = i + 1;
        }
        false
    }

    /// Remember that `path` may be overwritten in place.
    pub fn confirm(&mut self, path: &str)
        ensures
            final(self)@ == old(self)@.insert(path@),
    {
        if !self.is_confirmed(path) {
            let ghost before = self.paths@;
            self.paths.push(String::from_str(path));
            proof {
                assert forall|p: Seq<char>| #[trigger] self@.contains(p) == old(self)@.insert(path@).contains(p) by {
                    if old(self)@.contains(p) {
                        let i = choose|i: int| 0 <= i < before.len() && #[trigger] before[i]@ == p;
                        assert(self.paths@[i]@ == p);
                    }
                    if p == path@ {
                        assert(self.paths@[before.len() as int]@ == p);
                    }
                    if self@.contains(p) && p != path@ {
                        let i = choose|i: int| 0 <= i < self.paths@.len() && #[trigger] self.paths@[i]@ == p;
                        assert(i < before.len());
                        assert(before[i]@ == p);
                    }
                }
                assert(self@ =~= old(self)@.insert(path@));
            }
        } else {
            proof {
                assert(old(self)@.insert(path@) =~= old(self)@);
            }
        }
    }
}

/// The paths confirmed after the set `s` and then each of `later` in turn.
pub open spec fn confirmed_after(s: Set<Seq<char>>, later: Seq<Seq<char>>) -> Set<Seq<char>>
    decreases later.len(),
{
    if later.len() == 0 {
        s
    } else {
        confirmed_after(s, later.drop_last()).insert(later.last())
    }
}

/// Once a path is confirmed it stays confirmed for the session, whatever
/// is confirmed later: saving it in place never asks again.
pub proof fn lemma_asked_once_per_path(s: Set<Seq<char>>, path: Seq<char>, later: Seq<Seq<char>>)
    ensures
        confirmed_after(s.insert(path), later).contains(path),
    decreases later.len(),
{
    if later.len() > 0 {
        lemma_asked_once_per_path(s, path, later.drop_last());
    }
}

/// What a save asks for.
pub enum SaveAction {
    /// Write the image's annotations to this sidecar file.
    WriteSidecar { sidecar: String },
    /// Save the PDF in place, at this path.
    SavePdf { path: String },
    /// Ask first whether the PDF at this path may be overwritten.
    AskBeforeOverwrite { path: String },
    /// Nothing is open to save.
    Nothing,
}

/// What a save of the document in `state` asks for: an image's annotations
/// go to its sidecar file; a PDF is saved in place when its path has been
/// confirmed (`confirmed`), else the user is asked first.
pub fn save_action(state: &ViewState, confirmed: &SaveConfirmations) -> (a: SaveAction)
    ensures
        match *state {
            ViewState::Loaded { path, kind: DocumentKind::Image } => a matches SaveAction::WriteSidecar {
                sidecar,
            } && sidecar@ == path@ + sidecar_suffix(),
            ViewState::Loaded { path, kind: DocumentKind::Pdf } => if confirmed@.contains(path@) {
                a matches SaveAction::SavePdf { path: p } && p@ == path@
            } else {
                a matches SaveAction::AskBeforeOverwrite { path: p } && p@ == path@
            },
            _ => a is Nothing,
        },
{
    match state {
        ViewState::Loaded { path, kind: DocumentKind::Image } => SaveAction::WriteSidecar {
            sidecar: sidecar_path(path.as_str()),
        },
        ViewState::Loaded { path, kind: DocumentKind::Pdf } => {
            if confirmed.is_confirmed(path.as_str()) {
                SaveAction::SavePdf { path: String::from_str(path.as_str()) }
            } else {
                SaveAction::AskBeforeOverwrite { path: String::from_str(path.as_str()) }
            }
        },
        _ => SaveAction::Nothing,
    }
}

/// The user agreed to overwrite the open PDF: its path is confirmed for the
/// rest of the session and returned for the save. Nothing happens unless a
/// PDF is open.
pub fn confirm_save_in_place(state: &ViewState, confirmed: &mut SaveConfirmations) -> (p: Option<String>)
    ensures
        match *state {
            ViewState::Loaded { path, kind: DocumentKind::Pdf } => p matches Some(q) && q@ == path@
                && final(confirmed)@ == old(confirmed)@.insert(path@),
            _ => p is None && final(confirmed)@ == old(confirmed)@,
        },
{
    match state {
        ViewState::Loaded { path, kind: DocumentKind::Pdf } => {
            confirmed.confirm(path.as_str());
            Some(String::from_str(path.as_str()))
        },
        _ => None,
    }
}

/// After the open PDF was saved under `target`: later saves go to `target`,
/// which the user chose and so is not asked about. Nothing happens unless a
/// PDF is open.
pub fn retarget_after_save_as(state: &mut ViewState, confirmed: &mut SaveConfirmations, target: &str)
    ensures
        *old(state) matches ViewState::Loaded { kind: DocumentKind::Pdf, .. } ==> (*final(state) matches ViewState::Loaded {
            path,
            kind: DocumentKind::Pdf,
        } && path@ == target@) && final(confirmed)@ == old(confirmed)@.insert(target@),
        !(*old(state) matches ViewState::Loaded { kind: DocumentKind::Pdf, .. }) ==> *final(state) == *old(state)
            && final(confirmed)@ == old(confirmed)@,
{
    if state.is_pdf() {
        confirmed.confirm(target);
        *state = ViewState::Loaded { path: String::from_str(target), kind: DocumentKind::Pdf };
    }
}

/// `kept` lists, in order, the positions of the items that are not
/// placeholders (`placeholder[i]` marks a text box still waiting for text).
pub open spec fn lists_persisted(placeholder: Seq<bool>, kept: Seq<usize>) -> bool {
    &&& forall|k: int| 0 <= k < kept.len() ==> #[trigger] kept[k] < placeholder.len() && !placeholder[kept[k] as int]
    &&& forall|k: int, l: int| 0 <= k < l < kept.len() ==> kept[k] < kept[l]
    &&& forall|i: int|
        0 <= i < placeholder.len() && !placeholder[i] ==> exists|k: int| 0 <= k < kept.len() && #[trigger] kept[k] == i
}

/// The positions of the items that go into an image's sidecar file: all but
/// the placeholder text boxes, which are a hint on screen and not content.
pub fn persisted_positions(placeholder: &Vec<bool>) -> (kept: Vec<usize>)
    ensures
        lists_persisted(placeholder@, kept@),
{
    let ghost ph = placeholder@;
    let mut kept: Vec<usize> = Vec::new();
    let mut i: usize = 0;
    while i < placeholder.len()
        invariant
            ph == placeholder@,
            i <= ph.len(),
            forall|k: int| 0 <= k < kept@.len() ==> #[trigger] kept@[k] < i && !ph[kept@[k] as int],
            forall|k: int, l: int| 0 <= k < l < kept@.len() ==> kept@[k] < kept@[l],
            forall|j: int| 0 <= j < i && !ph[j] ==> exists|k: int| 0 <= k < kept@.len() && #[trigger] kept@[k] == j,
        decreases ph.len() - i,
    {
        if !placeholder[i] {
            let ghost before = kept@;
            kept.push(i);
            proof {
                assert forall|j: int| 0 <= j < i + 1 && !ph[j] implies exists|k: int|
                    0 <= k < kept@.len() && #[trigger] kept@[k] == j by {
                    if j < i {
                        let k = choose|k: int| 0 <= k < before.len() && #[trigger] before[k] == j;
                        assert(kept@[k] == before[k]);
                    } else {
                        assert(kept@[before.len() as int] == j);
                    }
                }
            }
        }
        i = i + 1;
    }
    kept
}

/// The match selected after a new search found `match_count` matches: the
/// first, or none when nothing matched.
pub fn search_index_after_query(match_count: usize) -> (i: Option<usize>)
    ensures
        i == (if match_count > 0 { Some(0usize) } else { None }),
{
    if match_count > 0 {
        Some(0)
    } else {
        None
    }
}

/// The quarter turns of the view after a turn to the right: one more,
/// modulo four, while a document is loaded; unchanged otherwise.
pub open spec fn turned_right(loaded: bool, quarters: u8) -> u8 {
    if loaded {
        ((quarters + 1) % 4) as u8
    } else {
        quarters
    }
}

/// Turn the view of the document in `state` a quarter to the right.
pub fn rotate_right(state: &ViewState, quarters: u8) -> (q: u8)
    requires
        quarters < u8::MAX,
    ensures
        q == turned_right(state is Loaded, quarters),
{
    if state.is_loaded() {
        (quarters + 1) % 4
    } else {
        quarters
    }
}

/// Four turns to the right bring a loaded view back where it was.
pub proof fn lemma_four_turns_come_back(quarters: u8)
    requires
        quarters < 4,
    ensures
        turned_right(true, turned_right(true, turned_right(true, turned_right(true, quarters)))) == quarters,
{
}

/// The text a fresh text box shows until the user types.
pub const PLACEHOLDER_TEXT: &'static str = "Enter some text";

/// Add `item` (a shape just drawn, or a new text box) after the others,
/// recording the items as they were for undo; the new item is selected and
/// the tool drops back to Pan, so the next click edits it.
pub fn add_item<A: Clone>(
    items: &mut Vec<A>,
    selected: &mut Option<usize>,
    tool: &mut Tool,
    undo: &mut UndoStack<Vec<A>>,
    item: A,
)
    requires
        old(items)@.len() < usize::MAX,
    ensures
        final(undo)@ == old(undo)@.pushed(*old(items)),
        final(items)@.len() == old(items)@.len() + 1,
        clones_of(old(items)@, final(items)@.drop_last()),
        final(items)@.last() == item,
        *final(selected) == Some(old(items)@.len() as usize),
        *final(tool) == Tool::Pan,
{
    let mut before: Vec<A> = Vec::new();
    std::mem::swap(&mut before, items);
    let mut next = clone_items(&before);
    let n = before.len();
    let ghost b = before@;
    let ghost c = next@;
    next.push(item);
    proof {
        assert(next@.drop_last() =~= c);
    }
    undo.push(before);
    *items = next;
    *selected = Some(n);
    *tool = Tool::Pan;
}

/// Undo right after adding an item gives back the items as they were.
pub proof fn lemma_undo_after_add_restores<A>(
    items: Vec<A>,
    h: UndoHistory<Vec<A>>,
    items1: Vec<A>,
    items2: Vec<A>,
    h2: UndoHistory<Vec<A>>,
    changed: bool,
)
    requires
        h.wf(),
        undo_happened(items1, h.pushed(items), items2, h2, changed),
    ensures
        changed,
        items2 == items,
{
}

/// `c` is white space, as `char::is_whitespace` documents it: the Unicode
/// `White_Space` property.
pub open spec fn is_white_space(c: char) -> bool {
    let u = c as u32;
    (0x9 <= u <= 0xD) || u == 0x20 || u == 0x85 || u == 0xA0 || u == 0x1680 || (0x2000 <= u <= 0x200A)
        || u == 0x2028 || u == 0x2029 || u == 0x202F || u == 0x205F || u == 0x3000
}

/// `text` holds nothing but white space: trimming leaves it empty.
pub open spec fn blank_text(text: Seq<char>) -> bool {
    forall|i: int| 0 <= i < text.len() ==> #[trigger] is_white_space(text[i])
}

fn white_space(c: char) -> (b: bool)
    ensures
        b == is_white_space(c),
{
    let u = c as u32;
    (0x9 <= u && u <= 0xD) || u == 0x20 || u == 0x85 || u == 0xA0 || u == 0x1680 || (0x2000 <= u && u
        <= 0x200A) || u == 0x2028 || u == 0x2029 || u == 0x202F || u == 0x205F || u == 0x3000
}

/// Whether `text` holds nothing but white space.
pub fn is_blank(text: &str) -> (b: bool)
    ensures
        b == blank_text(text@),
{
    let n = text.unicode_len();
    let mut i: usize = 0;
    while i < n
        invariant
            n == text@.len(),
            i <= n,
            forall|j: int| 0 <= j < i ==> #[trigger] is_white_space(text@[j]),
        decreases n - i,
    {
        if !white_space(text.get_char(i)) {
            return false;
        }
        i = i + 1;
    }
    true
}

/// What the item a text edit was opened on is.
#[derive(Debug, Clone, Copy, PartialEq, Eq, Structural)]
pub enum TextItemKind {
    /// A text box still showing the placeholder.
    Placeholder,
    /// A text box with real text.
    Text,
    /// Any other item.
    Other,
}

/// What closing the inline text editor does to the items.
#[derive(Debug, Clone, Copy, PartialEq, Eq, Structural)]
pub enum TextCommit {
    /// Put the placeholder text back into the text box at this position,
    /// which is selected.
    RestorePlaceholder(usize),
    /// Give the text box at this position the typed text and the editor's
    /// position, and clear its placeholder flag; it is selected.
    SetText(usize),
    /// The item at this position was emptied and is removed.
    Removed(usize),
    /// Add a new text box with the typed text (then `add_item`).
    AddNew,
    /// Nothing changes.
    Nothing,
}

/// The outcome of closing the inline editor with text that is `blank` or
/// not, when it was opened on item `replace` (of `n`, of kind `kind`) or on
/// no item: an emptied placeholder comes back, other emptied items go, a
/// text box takes real text; without an item, only real text adds one.
pub open spec fn text_commit(replace: Option<usize>, blank: bool, kind: TextItemKind, n: nat) -> TextCommit {
    match replace {
        Some(idx) => {
            let k = if idx < n { kind } else { TextItemKind::Other };
            if blank {
                if k == TextItemKind::Placeholder {
                    TextCommit::RestorePlaceholder(idx)
                } else if idx < n {
                    TextCommit::Removed(idx)
                } else {
                    TextCommit::Nothing
                }
            } else if k == TextItemKind::Other {
                TextCommit::Nothing
            } else {
                TextCommit::SetText(idx)
            }
        },
        None => if blank {
            TextCommit::Nothing
        } else {
            TextCommit::AddNew
        },
    }
}

/// What closing the inline editor does, case by case: on a text box of the
/// list (placeholder or not) real text goes into it; emptied, a placeholder
/// comes back and any other item of the list is removed; real text on an
/// item that is no text box, or on a position past the list, changes
/// nothing; without an item, real text adds a box and blank text nothing.
pub proof fn lemma_text_commit_cases(idx: usize, n: nat, kind: TextItemKind, blank: bool)
    ensures
        idx < n && kind != TextItemKind::Other && !blank ==> text_commit(Some(idx), blank, kind, n)
            == TextCommit::SetText(idx),
        idx < n && kind == TextItemKind::Placeholder && blank ==> text_commit(Some(idx), blank, kind, n)
            == TextCommit::RestorePlaceholder(idx),
        idx < n && kind != TextItemKind::Placeholder && blank ==> text_commit(Some(idx), blank, kind, n)
            == TextCommit::Removed(idx),
        (idx >= n || kind == TextItemKind::Other) && !blank ==> text_commit(Some(idx), blank, kind, n)
            == TextCommit::Nothing,
        idx >= n && blank ==> text_commit(Some(idx), blank, kind, n) == TextCommit::Nothing,
        text_commit(None, blank, kind, n) == (if blank { TextCommit::Nothing } else { TextCommit::AddNew }),
{
}

/// Close the inline text editor, opened on the item at `replace_index` (of
/// kind `kind`) or on no item, with `text` typed. Editing an item records
/// the items for undo first and goes on with clones of them; the returned
/// outcome says what the caller does to the text box itself.
pub fn commit_text_edit<A: Clone>(
    items: &mut Vec<A>,
    selected: &mut Option<usize>,
    undo: &mut UndoStack<Vec<A>>,
    replace_index: Option<usize>,
    text: &str,
    kind: TextItemKind,
) -> (c: TextCommit)
    ensures
        c == text_commit(replace_index, blank_text(text@), kind, old(items)@.len()),
        replace_index matches Some(i) ==> i < old(items)@.len() ==> kind != TextItemKind::Other ==> !blank_text(
            text@,
        ) ==> c == TextCommit::SetText(i) && *final(selected) == Some(i),
        replace_index matches Some(i) ==> i < old(items)@.len() ==> kind == TextItemKind::Placeholder
            ==> blank_text(text@) ==> c == TextCommit::RestorePlaceholder(i) && *final(selected) == Some(i),
        replace_index matches Some(i) ==> i < old(items)@.len() ==> kind != TextItemKind::Placeholder
            ==> blank_text(text@) ==> c == TextCommit::Removed(i),
        replace_index matches Some(i) ==> (i >= old(items)@.len() || kind == TextItemKind::Other) ==> !blank_text(
            text@,
        ) ==> c == TextCommit::Nothing && *final(selected) == *old(selected),
        replace_index is None ==> c == (if blank_text(text@) { TextCommit::Nothing } else { TextCommit::AddNew }),
        replace_index is Some ==> final(undo)@ == old(undo)@.pushed(*old(items)),
        replace_index is None ==> final(undo)@ == old(undo)@ && *final(items) == *old(items),
        match c {
            TextCommit::Removed(i) => clones_of(old(items)@.remove(i as int), final(items)@) && *final(selected)
                == *old(selected),
            TextCommit::RestorePlaceholder(i) => clones_of(old(items)@, final(items)@) && *final(selected) == Some(i),
            TextCommit::SetText(i) => clones_of(old(items)@, final(items)@) && *final(selected) == Some(i),
            _ => (replace_index is Some ==> clones_of(old(items)@, final(items)@)) && *final(selected)
                == *old(selected),
        },
{
    let blank = is_blank(text);
    match replace_index {
        None => {
            if blank {
                TextCommit::Nothing
            } else {
                TextCommit::AddNew
            }
        },
        Some(idx) => {
            let n = items.len();
            let k = if idx < n { kind } else { TextItemKind::Other };
            let mut before: Vec<A> = Vec::new();
            std::mem::swap(&mut before, items);
            let mut next = clone_items(&before);
            let ghost b = before@;
            undo.push(before);
            let c = if blank {
                if k == TextItemKind::Placeholder {
                    *selected = Some(idx);
                    TextCommit::RestorePlaceholder(idx)
                } else if idx < n {
                    next.remove(idx);
                    proof {
                        assert forall|i: int| 0 <= i < b.remove(idx as int).len() implies cloned::<A>(
                            b.remove(idx as int)[i],
                            #[trigger] next@[i],
                        ) by {
                            if i >= idx {
                                assert(cloned::<A>(b[i + 1], next@[i]));
                            }
                        }
                    }
                    TextCommit::Removed(idx)
                } else {
                    TextCommit::Nothing
                }
            } else if k == TextItemKind::Other {
                TextCommit::Nothing
            } else {
                *selected = Some(idx);
                TextCommit::SetText(idx)
            };
            *items = next;
            c
        },
    }
}

/// The text the inline editor opens with on a text box: empty for a
/// placeholder, so the user types into a clean box, else the box's text.
pub fn initial_editor_text(is_placeholder: bool, text: &str) -> (t: String)
    ensures
        t@ == (if is_placeholder { Seq::<char>::empty() } else { text@ }),
{
    if is_placeholder {
        String::new()
    } else {
        String::from_str(text)
    }
}

} // verus!
