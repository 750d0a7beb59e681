//! Verified core of a document previewer: the bounded undo history, pixel
//! buffers and their transforms, raster-signature import, and the small
//! naming and path rules that the viewer is built on.

pub mod annotation;
pub mod codec;
pub mod decode;
pub mod editor;
pub mod import;
pub mod library;
pub mod order;
pub mod paths;
pub mod pdf_names;
pub mod stroke;
pub mod surface;
pub mod text;
pub mod raster;
pub mod render;
pub mod selection;
pub mod settings;
pub mod sidecar;
pub mod ui;
pub mod undo;

pub use undo::{CoalesceKey, UndoHistory, UndoStack};
pub use editor::{
    add_item, commit_text_edit, initial_editor_text, is_blank, TextCommit, TextItemKind, PLACEHOLDER_TEXT,
    begin_style_edit, confirm_save_in_place, delete_selected, persisted_positions, redo_edit, retarget_after_save_as,
    rotate_right, save_action, search_index_after_query, search_next, search_prev, style_edit_key, undo_edit,
    SaveAction, SaveConfirmations, StyleEdit,
};
pub use decode::{decode_to_rgba, extension_is_heic, is_heic_extension, DecodedImage, Error, RgbaView};
pub use import::{import_png_signature, signature_from_decoded, ImportError, ImportOptions, RasterSignature};
pub use stroke::{chrono_like_stamp, stamp_label, SignatureId};
pub use annotation::{ArrowEnds, StampImage, StrokeStyle};
pub use selection::{DragKind, HandleId, HitKind};
pub use settings::{settings_path, Settings};
pub use sidecar::sidecar_path;
pub use library::{is_signature_file_name, Library};
pub use order::{deletion_order, order_by_id};
pub use ui::{
    error_description, extension_is_pdf, family_index, font_bar_visible, is_pdf_path, search_status, stroke_bar_visible,
    stroke_style_from_index, stroke_style_index, save_as_name, suggest_save_as_name,
    current_page, page_match_marks, page_to_show, subtitle, title_for_file_name, window_title, DocumentKind, DraftShape,
    Tool, ViewState, ZoomMode,
};
pub use pdf_names::{arrow_ends_from_line_endings, escape_pdf_literal, base_font_for_family, family_for_base_font, line_ending_names};
pub use surface::{argb32_to_rgba, rgba_to_argb32};
pub use render::RenderedPage;
