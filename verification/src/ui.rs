//! Decisions of the viewer's toolbar and window that do not depend on the
//! toolkit: tool names, style and font choices, window states, file names.
use vstd::prelude::*;

use crate::annotation::{ArrowEnds, StrokeStyle};
use crate::paths::{
    path_extension, path_extension_of, path_file_name, path_file_name_of, path_file_stem,
    path_file_stem_of,
};
use crate::text::{decimal, push_decimal};
use crate::text::{ascii_ci_eq, eq_ignore_ascii_case};

verus! {

/// Index of a stroke style in the style drop-down.
pub open spec fn style_index(s: StrokeStyle) -> u32 {
    match s {
        StrokeStyle::Solid => 0,
        StrokeStyle::Dashed => 1,
        StrokeStyle::Dotted => 2,
    }
}

/// The drop-down index of `s` (Solid, Dashed, Dotted in that order).
pub fn stroke_style_index(s: StrokeStyle) -> (i: u32)
    ensures
        i == style_index(s),
{
    match s {
        StrokeStyle::Solid => 0,
        StrokeStyle::Dashed => 1,
        StrokeStyle::Dotted => 2,
    }
}

/// The stroke style at drop-down index `i`, if there is one.
pub open spec fn style_at(i: u32) -> Option<StrokeStyle> {
    if i == 0 {
        Some(StrokeStyle::Solid)
    } else if i == 1 {
        Some(StrokeStyle::Dashed)
    } else if i == 2 {
        Some(StrokeStyle::Dotted)
    } else {
        None
    }
}

/// The stroke style at drop-down index `i`, if there is one.
pub fn stroke_style_from_index(i: u32) -> (s: Option<StrokeStyle>)
    ensures
        s == style_at(i),
{
    match i {
        0 => Some(StrokeStyle::Solid),
        1 => Some(StrokeStyle::Dashed),
        2 => Some(StrokeStyle::Dotted),
        _ => None,
    }
}

/// A style survives the round trip through its drop-down index, and each of
/// the three drop-down indices survives the round trip through its style.
pub proof fn lemma_style_index_round_trip(s: StrokeStyle, i: u32)
    ensures
        style_at(style_index(s)) == Some(s),
        i < 3 ==> (style_at(i) matches Some(t) && style_index(t) == i),
        i >= 3 ==> style_at(i) is None,
{
}

/// The font families offered without font embedding, in drop-down order.
pub open spec fn font_families() -> Seq<Seq<char>> {
    seq!["Helvetica"@, "Times"@, "Courier"@]
}

/// The first offered family matching `family` up to ASCII case, if any.
pub open spec fn family_position(family: Seq<char>, from: int) -> int
    decreases 3 - from,
{
    if from >= 3 {
        -1
    } else if ascii_ci_eq(font_families()[from], family) {
        from
    } else {
        family_position(family, from + 1)
    }
}

/// The drop-down index of `family` (matched up to ASCII case), or 0
/// (Helvetica) when it is not one of the offered families.
pub fn family_index(family: &str) -> (i: u32)
    ensures
        family_position(family@, 0) >= 0 ==> i == family_position(family@, 0),
        family_position(family@, 0) < 0 ==> i == 0,
{
    proof {
        reveal_with_fuel(family_position, 4);
        assert(font_families()[0] == "Helvetica"@);
        assert(font_families()[1] == "Times"@);
        assert(font_families()[2] == "Courier"@);
    }
    if eq_ignore_ascii_case("Helvetica", family) {
        0
    } else if eq_ignore_ascii_case("Times", family) {
        1
    } else if eq_ignore_ascii_case("Courier", family) {
        2
    } else {
        0
    }
}

/// An annotation tool of the toolbar.
#[derive(Debug, Clone, Copy, PartialEq, Eq, Structural)]
pub enum Tool {
    Pan,
    Rect,
    Ellipse,
    Line,
    Arrow,
    DoubleArrow,
    Highlight,
    Text,
}

/// The label shown for a tool.
pub open spec fn tool_label(t: Tool) -> Seq<char> {
    match t {
        Tool::Pan => "Pan"@,
        Tool::Rect => "Rect"@,
        Tool::Ellipse => "Ellipse"@,
        Tool::Line => "Line"@,
        Tool::Arrow => "Arrow"@,
        Tool::DoubleArrow => "Double arrow"@,
        Tool::Highlight => "Highlight"@,
        Tool::Text => "Text"@,
    }
}

impl Tool {
    pub fn label(self) -> (l: &'static str)
        ensures
            l@ == tool_label(self),
    {
        match self {
            Tool::Pan => "Pan",
            Tool::Rect => "Rect",
            Tool::Ellipse => "Ellipse",
            Tool::Line => "Line",
            Tool::Arrow => "Arrow",
            Tool::DoubleArrow => "Double arrow",
            Tool::Highlight => "Highlight",
            Tool::Text => "Text",
        }
    }

    /// True for the shape tools that live behind the Draw popover.
    pub fn is_draw_shape(self) -> (b: bool)
        ensures
            b == (self == Tool::Rect || self == Tool::Ellipse || self == Tool::Line || self
                == Tool::Arrow || self == Tool::DoubleArrow),
    {
        match self {
            Tool::Rect | Tool::Ellipse | Tool::Line | Tool::Arrow | Tool::DoubleArrow => true,
            _ => false,
        }
    }
}

/// The shape a drag with a tool draws: a box, an ellipse in a box, an arrow
/// with the given heads, or a highlight box.
#[derive(Debug, Clone, Copy, PartialEq, Eq, Structural)]
pub enum DraftShape {
    Rect,
    Ellipse,
    Arrow(ArrowEnds),
    Highlight,
}

/// The shape each tool draws; the tools that draw no shape of their own
/// (Pan, Text) draw a box.
pub open spec fn tool_shape(t: Tool) -> DraftShape {
    match t {
        Tool::Pan | Tool::Rect | Tool::Text => DraftShape::Rect,
        Tool::Ellipse => DraftShape::Ellipse,
        Tool::Line => DraftShape::Arrow(ArrowEnds::NoHeads),
        Tool::Arrow => DraftShape::Arrow(ArrowEnds::End),
        Tool::DoubleArrow => DraftShape::Arrow(ArrowEnds::Both),
        Tool::Highlight => DraftShape::Highlight,
    }
}

impl Tool {
    /// The shape a drag with this tool draws.
    pub fn draft_shape(self) -> (d: DraftShape)
        ensures
            d == tool_shape(self),
    {
        match self {
            Tool::Pan | Tool::Rect | Tool::Text => DraftShape::Rect,
            Tool::Ellipse => DraftShape::Ellipse,
            Tool::Line => DraftShape::Arrow(ArrowEnds::NoHeads),
            Tool::Arrow => DraftShape::Arrow(ArrowEnds::End),
            Tool::DoubleArrow => DraftShape::Arrow(ArrowEnds::Both),
            Tool::Highlight => DraftShape::Highlight,
        }
    }
}

/// What kind of document is open.
#[derive(Debug, Clone, Copy, PartialEq, Eq, Structural)]
pub enum DocumentKind {
    Image,
    Pdf,
}

/// Whether the zoom follows the viewport width or a value the user chose.
#[derive(Debug, Clone, Copy, PartialEq, Eq, Structural)]
pub enum ZoomMode {
    FitWidth,
    Manual,
}

/// What the main window shows.
#[derive(Debug)]
pub enum ViewState {
    Empty,
    Loaded { path: String, kind: DocumentKind },
    Error { path: String, message: String },
}

impl ViewState {
    /// The name of the window page that shows this state.
    pub fn page(&self) -> (p: &'static str)
        ensures
            p@ == match self {
                ViewState::Empty => "empty"@,
                ViewState::Loaded { .. } => "loaded"@,
                ViewState::Error { .. } => "error"@,
            },
    {
        match self {
            ViewState::Empty => "empty",
            ViewState::Loaded { .. } => "loaded",
            ViewState::Error { .. } => "error",
        }
    }

    pub fn is_pdf(&self) -> (b: bool)
        ensures
            b == (self matches ViewState::Loaded { kind: DocumentKind::Pdf, .. }),
    {
        match self {
            ViewState::Loaded { kind: DocumentKind::Pdf, .. } => true,
            _ => false,
        }
    }

    pub fn is_loaded(&self) -> (b: bool)
        ensures
            b == (self is Loaded),
    {
        match self {
            ViewState::Loaded { .. } => true,
            _ => false,
        }
    }
}

/// The extension `ext` (if any) is `pdf` in any ASCII case.
pub open spec fn is_pdf_ext(ext: Option<Seq<char>>) -> bool {
    match ext {
        Some(e) => ascii_ci_eq(e, "pdf"@),
        None => false,
    }
}

/// The path names a PDF: its extension is `pdf` in any ASCII case.
pub open spec fn is_pdf_name(path: Seq<char>) -> bool {
    is_pdf_ext(path_extension_of(path))
}

/// Whether the file extension `ext` (if any) is `pdf`, in any ASCII case.
pub fn extension_is_pdf(ext: Option<&str>) -> (b: bool)
    ensures
        b == is_pdf_ext(
            match ext {
                Some(e) => Some(e@),
                None => None,
            },
        ),
{
    match ext {
        Some(e) => eq_ignore_ascii_case(e, "pdf"),
        None => false,
    }
}

/// Whether `path` has a `.pdf` extension (any ASCII case).
pub fn is_pdf_path(path: &str) -> (b: bool)
    ensures
        b == is_pdf_name(path@),
{
    match path_extension(path) {
        Some(e) => extension_is_pdf(Some(e.as_str())),
        None => extension_is_pdf(None),
    }
}

/// The default Save-As name for a file with stem `stem`:
/// `<stem> (annotated).pdf`, with `document` standing in for a missing stem.
pub open spec fn save_as_name_for(stem: Option<Seq<char>>) -> Seq<char> {
    let base = match stem {
        Some(s) => s,
        None => "document"@,
    };
    base + " (annotated).pdf"@
}

/// The default Save-As name for a file whose stem is `stem`.
pub fn save_as_name(stem: Option<&str>) -> (n: String)
    ensures
        n@ == save_as_name_for(
            match stem {
                Some(s) => Some(s@),
                None => None,
            },
        ),
{
    let mut name = match stem {
        Some(s) => String::from_str(s),
        None => String::from_str("document"),
    };
    name.append(" (annotated).pdf");
    name
}

/// The default Save-As name for `original`.
pub fn suggest_save_as_name(original: &str) -> (n: String)
    ensures
        n@ == save_as_name_for(path_file_stem_of(original@)),
{
    match path_file_stem(original) {
        Some(stem) => save_as_name(Some(stem.as_str())),
        None => save_as_name(None),
    }
}

/// The window title for a document whose file name is `name`: the name, or
/// `Previewer` when there is none.
pub open spec fn title_for_name(name: Option<Seq<char>>) -> Seq<char> {
    match name {
        Some(n) => n,
        None => "Previewer"@,
    }
}

/// The window title for `state`: the file name of the open (or failed)
/// document, `Previewer` when there is none.
pub open spec fn title_for(state: ViewState) -> Seq<char> {
    match state {
        ViewState::Empty => "Previewer"@,
        ViewState::Loaded { path, .. } | ViewState::Error { path, .. } => title_for_name(
            path_file_name_of(path@),
        ),
    }
}

/// The window title for a document whose file name is `name`.
pub fn title_for_file_name(name: Option<&str>) -> (t: String)
    ensures
        t@ == title_for_name(
            match name {
                Some(n) => Some(n@),
                None => None,
            },
        ),
{
    match name {
        Some(n) => String::from_str(n),
        None => String::from_str("Previewer"),
    }
}

/// The window title shown for `state`.
pub fn window_title(state: &ViewState) -> (t: String)
    ensures
        t@ == title_for(*state),
{
    match state {
        ViewState::Empty => String::from_str("Previewer"),
        ViewState::Loaded { path, .. } | ViewState::Error { path, .. } => match path_file_name(path.as_str()) {
            Some(n) => title_for_file_name(Some(n.as_str())),
            None => title_for_file_name(None),
        },
    }
}

/// The body of the error page: the path, a blank line, and the message;
/// empty unless `state` is an error.
pub fn error_description(state: &ViewState) -> (d: String)
    ensures
        d@ == match *state {
            ViewState::Error { path, message } => path@ + "\n\n"@ + message@,
            _ => Seq::empty(),
        },
{
    match state {
        ViewState::Error { path, message } => {
            let mut d = String::from_str(path.as_str());
            d.append("\n\n");
            d.append(message.as_str());
            d
        },
        _ => String::new(),
    }
}

/// The search status line: empty without a query, `0 matches` when nothing
/// matched, else `<n> of <total>` for the selected match `n` (the first when
/// none is selected).
pub open spec fn search_status_text(query: Seq<char>, match_count: nat, selected: Option<usize>) -> Seq<char> {
    if query.len() == 0 {
        Seq::empty()
    } else if match_count == 0 {
        "0 matches"@
    } else {
        let i = match selected {
            Some(i) => i as nat,
            None => 0,
        };
        decimal(i + 1) + " of "@ + decimal(match_count)
    }
}

/// The search status line for `query` with `match_count` matches and the
/// match at `selected` chosen.
pub fn search_status(query: &str, match_count: usize, selected: Option<usize>) -> (s: String)
    requires
        selected matches Some(i) ==> i < usize::MAX,
    ensures
        s@ == search_status_text(query@, match_count as nat, selected),
{
    if query.unicode_len() == 0 {
        return String::new();
    }
    if match_count == 0 {
        return String::from_str("0 matches");
    }
    let i = match selected {
        Some(i) => i,
        None => 0,
    };
    let mut s = String::new();
    push_decimal(&mut s, (i + 1) as u64);
    s.append(" of ");
    push_decimal(&mut s, match_count as u64);
    s
}

/// The page the annotation tools work on: the PDF page shown, or page 0
/// for an image.
pub fn current_page(state: &ViewState, pdf_page: u32) -> (p: u32)
    ensures
        p == if *state matches ViewState::Loaded { kind: DocumentKind::Pdf, .. } {
            pdf_page
        } else {
            0
        },
{
    if state.is_pdf() {
        pdf_page
    } else {
        0
    }
}

/// Where a request to show page `target` (from zero) of a `total`-page PDF
/// lands, when page `current` is shown (`rendered` when its raster is on
/// screen): the last page when `target` lies beyond it; `None` when the PDF
/// has no pages or that page is already on screen, so nothing is rendered.
pub open spec fn page_request(target: u32, total: u32, current: u32, rendered: bool) -> Option<u32> {
    if total == 0 {
        None
    } else {
        let t = if target < total { target } else { (total - 1) as u32 };
        if t == current && rendered {
            None
        } else {
            Some(t)
        }
    }
}

/// The page to render for a request to show page `target`.
pub fn page_to_show(target: u32, total: u32, current: u32, rendered: bool) -> (p: Option<u32>)
    ensures
        p == page_request(target, total, current, rendered),
        p matches Some(q) ==> q < total,
{
    if total == 0 {
        return None;
    }
    let t = if target < total { target } else { total - 1 };
    if t == current && rendered {
        None
    } else {
        Some(t)
    }
}

/// `marks` lists, in order, the search matches (on pages `match_pages`) that
/// fall on page `page`, each with whether it is the selected match.
pub open spec fn marks_matches_on_page(
    match_pages: Seq<u32>,
    page: u32,
    selected: Option<usize>,
    marks: Seq<(usize, bool)>,
) -> bool {
    &&& forall|k: int|
        0 <= k < marks.len() ==> {
            let (i, sel) = #[trigger] marks[k];
            &&& i < match_pages.len()
            &&& match_pages[i as int] == page
            &&& sel == (selected == Some(i))
        }
    &&& forall|k: int, l: int| 0 <= k < l < marks.len() ==> marks[k].0 < marks[l].0
    &&& forall|i: int|
        0 <= i < match_pages.len() && match_pages[i] == page ==> exists|k: int|
            0 <= k < marks.len() && #[trigger] marks[k].0 == i
}

/// The search matches to highlight on the page shown: for a PDF, the
/// positions of the matches on page `page` (in order, each with whether it
/// is the selected match, which is drawn more strongly); none otherwise.
pub fn page_match_marks(state: &ViewState, match_pages: &Vec<u32>, page: u32, selected: Option<usize>) -> (marks: Vec<
    (usize, bool),
>)
    ensures
        (*state matches ViewState::Loaded { kind: DocumentKind::Pdf, .. }) ==> marks_matches_on_page(
            match_pages@,
            page,
            selected,
            marks@,
        ),
        !(*state matches ViewState::Loaded { kind: DocumentKind::Pdf, .. }) ==> marks@.len() == 0,
{
    let mut marks: Vec<(usize, bool)> = Vec::new();
    if !state.is_pdf() {
        return marks;
    }
    let ghost pages = match_pages@;
    let mut i: usize = 0;
    while i < match_pages.len()
        invariant
            pages == match_pages@,
            i <= pages.len(),
            forall|k: int|
                0 <= k < marks@.len() ==> {
                    let (j, sel) = #[trigger] marks@[k];
                    &&& j < i
                    &&& pages[j as int] == page
                    &&& sel == (selected == Some(j))
                },
            forall|k: int, l: int| 0 <= k < l < marks@.len() ==> marks@[k].0 < marks@[l].0,
            forall|j: int|
                0 <= j < i && pages[j] == page ==> exists|k: int| 0 <= k < marks@.len() && #[trigger] marks@[k].0 == j,
        decreases pages.len() - i,
    {
        if match_pages[i] == page {
            let is_selected = match selected {
                Some(s) => s == i,
                None => false,
            };
            let ghost before = marks@;
            marks.push((i, is_selected));
            proof {
                assert forall|j: int|
                    0 <= j < i + 1 && pages[j] == page implies exists|k: int|
                        0 <= k < marks@.len() && #[trigger] marks@[k].0 == j by {
                    if j < i {
                        let k = choose|k: int| 0 <= k < before.len() && #[trigger] before[k].0 == j;
                        assert(marks@[k] == before[k]);
                    } else {
                        assert(marks@[before.len() as int].0 == j);
                    }
                }
            }
        }
        i = i + 1;
    }
    marks
}

/// The decimal text of the integer `n`, with a leading `-` when negative.
pub open spec fn signed_decimal(n: int) -> Seq<char> {
    if n < 0 {
        seq!['-'] + decimal((-n) as nat)
    } else {
        decimal(n as nat)
    }
}

fn push_signed_decimal(s: &mut String, n: i32)
    ensures
        final(s)@ == old(s)@ + signed_decimal(n as int),
{
    if n < 0 {
        let ghost start = s@;
        s.append("-");
        proof {
            reveal_strlit("-");
        }
        let m = -(n as i64);
        push_decimal(s, m as u64);
        proof {
            assert(s@ =~= start + signed_decimal(n as int));
        }
    } else {
        push_decimal(s, n as u64);
    }
}

/// The subtitle under the window title: for a PDF (whose page count is
/// `page_count`), the page shown counted from one, the page count, the zoom
/// in percent and the armed tool; for an image, its `size` in pixels, the
/// zoom and the tool; empty otherwise.
pub open spec fn subtitle_text(
    state: ViewState,
    page_count: Option<u32>,
    page: u32,
    size: (u32, u32),
    zoom_pct: i32,
    tool: Tool,
) -> Seq<char> {
    match state {
        ViewState::Loaded { kind: DocumentKind::Pdf, .. } => match page_count {
            Some(total) => "Page "@ + decimal((page + 1) as nat) + " of "@ + decimal(total as nat) + " · "@
                + signed_decimal(zoom_pct as int) + "% · "@ + tool_label(tool),
            None => Seq::empty(),
        },
        ViewState::Loaded { kind: DocumentKind::Image, .. } => decimal(size.0 as nat) + " × "@ + decimal(
            size.1 as nat,
        ) + " · "@ + signed_decimal(zoom_pct as int) + "% · "@ + tool_label(tool),
        _ => Seq::empty(),
    }
}

/// The subtitle for `state`, the page count of the open PDF (`None` when no
/// PDF is open), the page shown (from zero), the image size, the zoom in
/// percent and the armed tool.
pub fn subtitle(
    state: &ViewState,
    page_count: Option<u32>,
    page: u32,
    size: (u32, u32),
    zoom_pct: i32,
    tool: Tool,
) -> (s: String)
    requires
        page < u32::MAX,
    ensures
        s@ == subtitle_text(*state, page_count, page, size, zoom_pct, tool),
{
    match state {
        ViewState::Loaded { kind: DocumentKind::Pdf, .. } => match page_count {
            Some(total) => {
                let mut s = String::from_str("Page ");
                push_decimal(&mut s, (page + 1) as u64);
                s.append(" of ");
                push_decimal(&mut s, total as u64);
                s.append(" · ");
                push_signed_decimal(&mut s, zoom_pct);
                s.append("% · ");
                s.append(tool.label());
                s
            },
            None => String::new(),
        },
        ViewState::Loaded { kind: DocumentKind::Image, .. } => {
            let mut s = String::new();
            push_decimal(&mut s, size.0 as u64);
            s.append(" × ");
            push_decimal(&mut s, size.1 as u64);
            s.append(" · ");
            push_signed_decimal(&mut s, zoom_pct);
            s.append("% · ");
            s.append(tool.label());
            s
        },
        _ => String::new(),
    }
}

/// The font controls show while a document is loaded and text is being
/// worked on: the Text tool is armed, an inline editor is open, or a text
/// annotation is selected.
pub open spec fn font_bar_shown(state: ViewState, tool: Tool, editing_text: bool, text_selected: bool) -> bool {
    state is Loaded && (tool == Tool::Text || editing_text || text_selected)
}

/// The stroke controls show while a document is loaded, unless the font
/// controls take their slot.
pub open spec fn stroke_bar_shown(state: ViewState, tool: Tool, editing_text: bool, text_selected: bool) -> bool {
    state is Loaded && !font_bar_shown(state, tool, editing_text, text_selected)
}

/// Whether the font controls show.
pub fn font_bar_visible(state: &ViewState, tool: Tool, editing_text: bool, text_selected: bool) -> (b: bool)
    ensures
        b == font_bar_shown(*state, tool, editing_text, text_selected),
{
    if !state.is_loaded() {
        return false;
    }
    if tool == Tool::Text || editing_text {
        return true;
    }
    text_selected
}

/// Whether the stroke controls show.
pub fn stroke_bar_visible(state: &ViewState, tool: Tool, editing_text: bool, text_selected: bool) -> (b: bool)
    ensures
        b == stroke_bar_shown(*state, tool, editing_text, text_selected),
{
    state.is_loaded() && !font_bar_visible(state, tool, editing_text, text_selected)
}

/// The font and stroke controls share one slot: while a document is loaded
/// exactly one of them shows, and neither shows otherwise.
pub proof fn lemma_control_bars_share_a_slot(state: ViewState, tool: Tool, editing_text: bool, text_selected: bool)
    ensures
        state is Loaded ==> font_bar_shown(state, tool, editing_text, text_selected) != stroke_bar_shown(
            state,
            tool,
            editing_text,
            text_selected,
        ),
        !(state is Loaded) ==> !font_bar_shown(state, tool, editing_text, text_selected)
            && !stroke_bar_shown(state, tool, editing_text, text_selected),
{
}

} // verus!
