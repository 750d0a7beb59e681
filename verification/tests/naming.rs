use previewer::{
    arrow_ends_from_line_endings, base_font_for_family, error_description, escape_pdf_literal,
    font_bar_visible, search_status, stroke_bar_visible, window_title, family_for_base_font, family_index,
    is_pdf_path, is_signature_file_name, line_ending_names, settings_path, stroke_style_from_index,
    stroke_style_index, suggest_save_as_name, ArrowEnds, DocumentKind, Library, Settings,
    SignatureId, StrokeStyle, Tool, ViewState, chrono_like_stamp, stamp_label,
    extension_is_pdf, save_as_name, title_for_file_name, DraftShape, subtitle, current_page, page_to_show, page_match_marks,
};

#[test]
fn library_at_keeps_dir() {
    let lib = Library::at("/tmp/sigs");
    assert_eq!(lib.dir(), "/tmp/sigs");
}

#[test]
fn default_library_prefers_xdg_data_home() {
    let lib = Library::default_user_library(Some("/xdg"), Some("/home/u"));
    assert_eq!(lib.dir(), "/xdg/previewer/signatures");
    let lib = Library::default_user_library(Some("/xdg/"), None);
    assert_eq!(lib.dir(), "/xdg/previewer/signatures");
}

#[test]
fn default_library_falls_back_to_home() {
    let lib = Library::default_user_library(None, Some("/home/u"));
    assert_eq!(lib.dir(), "/home/u/.local/share/previewer/signatures");
    let lib = Library::default_user_library(Some(""), Some("/home/u"));
    assert_eq!(lib.dir(), "/home/u/.local/share/previewer/signatures");
    let lib = Library::default_user_library(None, None);
    assert_eq!(lib.dir(), ".local/share/previewer/signatures");
}

#[test]
fn signature_files_are_named_by_id() {
    let lib = Library::at("/tmp/sigs");
    assert_eq!(lib.signature_path(SignatureId(42)), "/tmp/sigs/42.sig.json");
    assert_eq!(lib.signature_path(SignatureId(0)), "/tmp/sigs/0.sig.json");
    assert_eq!(
        lib.signature_path(SignatureId(u64::MAX)),
        format!("/tmp/sigs/{}.sig.json", u64::MAX)
    );
    let lib = Library::at("/tmp/sigs/");
    assert_eq!(lib.signature_path(SignatureId(1700000000123456789)), "/tmp/sigs/1700000000123456789.sig.json");
    let lib = Library::at("");
    assert_eq!(lib.signature_path(SignatureId(7)), "7.sig.json");
}

#[test]
fn only_sig_json_files_are_signatures() {
    assert!(is_signature_file_name("42.sig.json"));
    assert!(is_signature_file_name("sig.json"));
    assert!(!is_signature_file_name("note.txt"));
    assert!(!is_signature_file_name("42.sig.json.bak"));
    assert!(!is_signature_file_name("ig.json"));
}

#[test]
fn random_ids_come_from_the_clock() {
    let a = SignatureId::random();
    assert_ne!(a.0, 0);
}

#[test]
fn settings_path_prefers_xdg_config_home() {
    assert_eq!(
        settings_path(Some("/cfg"), Some("/home/u")).as_deref(),
        Some("/cfg/previewer/settings.json")
    );
    assert_eq!(
        settings_path(None, Some("/home/u")).as_deref(),
        Some("/home/u/.config/previewer/settings.json")
    );
    assert_eq!(
        settings_path(Some(""), Some("/home/u")).as_deref(),
        Some("/home/u/.config/previewer/settings.json")
    );
    assert_eq!(settings_path(None, None), None);
    assert_eq!(settings_path(Some(""), None), None);
}

#[test]
fn default_settings_hide_the_sidebar() {
    assert_eq!(Settings::default(), Settings { show_sidebar: false });
}

#[test]
fn stroke_style_index_round_trips() {
    for s in [StrokeStyle::Solid, StrokeStyle::Dashed, StrokeStyle::Dotted] {
        assert_eq!(stroke_style_from_index(stroke_style_index(s)), Some(s));
    }
    assert_eq!(stroke_style_index(StrokeStyle::Dashed), 1);
    assert_eq!(stroke_style_from_index(3), None);
    assert_eq!(StrokeStyle::default(), StrokeStyle::Solid);
}

#[test]
fn family_index_matches_ignoring_ascii_case() {
    assert_eq!(family_index("Helvetica"), 0);
    assert_eq!(family_index("times"), 1);
    assert_eq!(family_index("COURIER"), 2);
    assert_eq!(family_index("Comic Sans"), 0);
    assert_eq!(family_index(""), 0);
}

#[test]
fn tool_labels_and_draw_shapes() {
    assert_eq!(Tool::DoubleArrow.label(), "Double arrow");
    assert_eq!(Tool::Pan.label(), "Pan");
    assert!(Tool::Ellipse.is_draw_shape());
    assert!(!Tool::Text.is_draw_shape());
    assert!(!Tool::Highlight.is_draw_shape());
}

#[test]
fn view_state_pages() {
    let s = ViewState::Loaded { path: "/a.pdf".to_string(), kind: DocumentKind::Pdf };
    assert_eq!(s.page(), "loaded");
    assert!(s.is_pdf());
    assert!(s.is_loaded());
    let s = ViewState::Loaded { path: "/a.png".to_string(), kind: DocumentKind::Image };
    assert!(!s.is_pdf());
    let s = ViewState::Error { path: "/x".to_string(), message: "boom".to_string() };
    assert_eq!(s.page(), "error");
    assert!(!s.is_loaded());
    assert_eq!(ViewState::Empty.page(), "empty");
}

#[test]
fn pdf_paths_by_extension() {
    assert!(is_pdf_path("/docs/contract.pdf"));
    assert!(is_pdf_path("CONTRACT.PDF"));
    assert!(!is_pdf_path("contract.pdf.png"));
    assert!(!is_pdf_path("pdf"));
}

#[test]
fn save_as_name_uses_stem() {
    assert_eq!(suggest_save_as_name("/docs/contract.pdf"), "contract (annotated).pdf");
    assert_eq!(suggest_save_as_name("/"), "document (annotated).pdf");
}

#[test]
fn arrow_ends_round_trip_through_line_endings() {
    for ends in [ArrowEnds::NoHeads, ArrowEnds::End, ArrowEnds::Both] {
        let (s, e) = line_ending_names(ends);
        let back = arrow_ends_from_line_endings(Some((Some(&s[..]), Some(&e[..]))));
        assert_eq!(back, ends, "ends should round-trip");
    }
    let (s, e) = line_ending_names(ArrowEnds::End);
    assert_eq!(s, b"None".to_vec());
    assert_eq!(e, b"OpenArrow".to_vec());
}

#[test]
fn odd_line_endings_read_as_single_arrow() {
    assert_eq!(arrow_ends_from_line_endings(None), ArrowEnds::End);
    assert_eq!(
        arrow_ends_from_line_endings(Some((Some(&b"ClosedArrow"[..]), Some(&b"None"[..])))),
        ArrowEnds::End
    );
    assert_eq!(arrow_ends_from_line_endings(Some((None, None))), ArrowEnds::NoHeads);
    assert_eq!(ArrowEnds::default(), ArrowEnds::End);
}

#[test]
fn font_families_round_trip_through_base_fonts() {
    for f in ["Helvetica", "Times", "Courier"] {
        assert_eq!(family_for_base_font(base_font_for_family(f)), f);
    }
    assert_eq!(base_font_for_family("Times Roman"), "Times-Roman");
    assert_eq!(base_font_for_family("Wingdings"), "Helvetica");
    assert_eq!(family_for_base_font("Courier-BoldOblique"), "Courier");
    assert_eq!(family_for_base_font("Times-Italic"), "Times");
    assert_eq!(family_for_base_font("Symbol"), "Helvetica");
}

#[test]
fn clock_readings_become_ids() {
    assert_eq!(SignatureId::from_clock(Some(42)), SignatureId(42));
    assert_eq!(SignatureId::from_clock(None), SignatureId(0));
    assert_eq!(SignatureId::from_clock(Some((1u128 << 64) + 5)), SignatureId(5));
}

#[test]
fn pdf_literals_escape_backslash_and_parentheses() {
    assert_eq!(escape_pdf_literal("plain text"), "plain text");
    assert_eq!(escape_pdf_literal("a(b)c"), "a\\(b\\)c");
    assert_eq!(escape_pdf_literal("back\\slash"), "back\\\\slash");
    assert_eq!(escape_pdf_literal("line\r"), "line");
    assert_eq!(escape_pdf_literal("héllo ✓"), "héllo ✓");
    assert_eq!(escape_pdf_literal(""), "");
}

#[test]
fn window_title_is_the_file_name() {
    assert_eq!(window_title(&ViewState::Empty), "Previewer");
    let s = ViewState::Loaded { path: "/docs/contract.pdf".to_string(), kind: DocumentKind::Pdf };
    assert_eq!(window_title(&s), "contract.pdf");
    let s = ViewState::Error { path: "/".to_string(), message: "no".to_string() };
    assert_eq!(window_title(&s), "Previewer");
}

#[test]
fn error_description_joins_path_and_message() {
    let s = ViewState::Error { path: "/x/y.png".to_string(), message: "bad file".to_string() };
    assert_eq!(error_description(&s), "/x/y.png\n\nbad file");
    assert_eq!(error_description(&ViewState::Empty), "");
}

#[test]
fn search_status_counts_matches() {
    assert_eq!(search_status("", 5, Some(1)), "");
    assert_eq!(search_status("lorem", 0, None), "0 matches");
    assert_eq!(search_status("lorem", 12, Some(2)), "3 of 12");
    assert_eq!(search_status("lorem", 3, None), "1 of 3");
}

#[test]
fn control_bars_share_one_slot() {
    let loaded = ViewState::Loaded { path: "/a.png".to_string(), kind: DocumentKind::Image };
    assert!(font_bar_visible(&loaded, Tool::Text, false, false));
    assert!(!stroke_bar_visible(&loaded, Tool::Text, false, false));
    assert!(!font_bar_visible(&loaded, Tool::Rect, false, false));
    assert!(stroke_bar_visible(&loaded, Tool::Rect, false, false));
    assert!(font_bar_visible(&loaded, Tool::Pan, false, true));
    assert!(font_bar_visible(&loaded, Tool::Pan, true, false));
    assert!(!font_bar_visible(&ViewState::Empty, Tool::Text, true, true));
    assert!(!stroke_bar_visible(&ViewState::Empty, Tool::Rect, false, false));
}

#[test]
fn stamp_label_is_hash_and_seconds() {
    assert_eq!(stamp_label(Some(1712345678)), "#1712345678");
    assert_eq!(stamp_label(Some(0)), "#0");
    assert_eq!(stamp_label(None), "#0");
}

#[test]
fn chrono_like_stamp_reads_the_clock() {
    let s = chrono_like_stamp();
    assert!(s.starts_with('#'));
    assert!(s.len() > 1);
    assert!(s[1..].chars().all(|c| c.is_ascii_digit()));
    assert_ne!(s, "#0");
}

#[test]
fn pdf_extension_is_matched_without_case() {
    assert!(extension_is_pdf(Some("pdf")));
    assert!(extension_is_pdf(Some("PdF")));
    assert!(!extension_is_pdf(Some("png")));
    assert!(!extension_is_pdf(None));
}

#[test]
fn title_for_file_name_falls_back_to_app_name() {
    assert_eq!(title_for_file_name(Some("a.pdf")), "a.pdf");
    assert_eq!(title_for_file_name(None), "Previewer");
}

#[test]
fn save_as_name_appends_annotated_suffix() {
    assert_eq!(save_as_name(Some("report")), "report (annotated).pdf");
    assert_eq!(save_as_name(None), "document (annotated).pdf");
}

#[test]
fn each_tool_draws_its_shape() {
    assert_eq!(Tool::Pan.draft_shape(), DraftShape::Rect);
    assert_eq!(Tool::Rect.draft_shape(), DraftShape::Rect);
    assert_eq!(Tool::Text.draft_shape(), DraftShape::Rect);
    assert_eq!(Tool::Ellipse.draft_shape(), DraftShape::Ellipse);
    assert_eq!(Tool::Line.draft_shape(), DraftShape::Arrow(ArrowEnds::NoHeads));
    assert_eq!(Tool::Arrow.draft_shape(), DraftShape::Arrow(ArrowEnds::End));
    assert_eq!(Tool::DoubleArrow.draft_shape(), DraftShape::Arrow(ArrowEnds::Both));
    assert_eq!(Tool::Highlight.draft_shape(), DraftShape::Highlight);
}

#[test]
fn subtitle_shows_page_zoom_and_tool_for_a_pdf() {
    let state = ViewState::Loaded { path: "/d/a.pdf".to_string(), kind: DocumentKind::Pdf };
    assert_eq!(subtitle(&state, Some(12), 2, (0, 0), 150, Tool::Pan), "Page 3 of 12 · 150% · Pan");
    assert_eq!(subtitle(&state, None, 2, (0, 0), 150, Tool::Pan), "");
}

#[test]
fn subtitle_shows_size_zoom_and_tool_for_an_image() {
    let state = ViewState::Loaded { path: "/d/a.png".to_string(), kind: DocumentKind::Image };
    assert_eq!(subtitle(&state, None, 0, (640, 480), 100, Tool::DoubleArrow), "640 × 480 · 100% · Double arrow");
    assert_eq!(subtitle(&state, Some(3), 0, (1, 2), -5, Tool::Rect), "1 × 2 · -5% · Rect");
}

#[test]
fn subtitle_is_empty_without_a_document() {
    assert_eq!(subtitle(&ViewState::Empty, Some(3), 0, (1, 1), 100, Tool::Pan), "");
    let err = ViewState::Error { path: "x".to_string(), message: "bad".to_string() };
    assert_eq!(subtitle(&err, None, 0, (1, 1), 100, Tool::Pan), "");
}

#[test]
fn current_page_is_zero_for_images() {
    let pdf = ViewState::Loaded { path: "a.pdf".to_string(), kind: DocumentKind::Pdf };
    let img = ViewState::Loaded { path: "a.png".to_string(), kind: DocumentKind::Image };
    assert_eq!(current_page(&pdf, 4), 4);
    assert_eq!(current_page(&img, 4), 0);
    assert_eq!(current_page(&ViewState::Empty, 4), 0);
}

#[test]
fn page_requests_are_clamped_to_the_last_page() {
    assert_eq!(page_to_show(9, 3, 0, true), Some(2));
    assert_eq!(page_to_show(1, 3, 0, true), Some(1));
    assert_eq!(page_to_show(0, 0, 0, false), None);
}

#[test]
fn the_page_on_screen_is_not_rendered_again() {
    assert_eq!(page_to_show(2, 3, 2, true), None);
    assert_eq!(page_to_show(7, 3, 2, true), None);
    assert_eq!(page_to_show(2, 3, 2, false), Some(2));
}

#[test]
fn only_matches_on_the_shown_page_are_marked() {
    let pdf = ViewState::Loaded { path: "a.pdf".to_string(), kind: DocumentKind::Pdf };
    let pages = vec![0, 2, 2, 1, 2];
    assert_eq!(page_match_marks(&pdf, &pages, 2, Some(2)), vec![(1, false), (2, true), (4, false)]);
    assert_eq!(page_match_marks(&pdf, &pages, 2, None), vec![(1, false), (2, false), (4, false)]);
    assert_eq!(page_match_marks(&pdf, &pages, 0, Some(9)), vec![(0, false)]);
    assert_eq!(page_match_marks(&pdf, &pages, 5, Some(0)), vec![]);
}

#[test]
fn images_show_no_search_marks() {
    let img = ViewState::Loaded { path: "a.png".to_string(), kind: DocumentKind::Image };
    assert_eq!(page_match_marks(&img, &vec![0, 0], 0, Some(0)), vec![]);
}
