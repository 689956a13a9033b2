//! Editor logic of Faber.
use vstd::prelude::*;

pub mod blink;
pub mod buffer_view;
pub mod completion_logic;
pub mod completion_menu;
pub mod cycle;
pub mod document;
pub mod editing;
pub mod editor_frame;
pub mod editor_keys;
pub mod editor_logic;
pub mod editor_view;
pub mod file_finder;
pub mod file_preview;
pub mod hover_layout;
pub mod hover_popover;
pub mod hover_segments;
pub mod hover_state;
pub mod http;
pub mod input_helpers;
pub mod json;
pub mod keys;
pub mod language_picker;
pub mod laws;
pub mod line_cache;
pub mod line_paint;
pub mod locations;
pub mod lsp_status;
pub mod markdown;
pub mod markdown_preview;
pub mod matched_text;
pub mod order;
pub mod outline_overlay;
pub mod pane;
pub mod panels;
pub mod path_map;
pub mod paths;
pub mod project_search_view;
pub mod rope;
pub mod search;
pub mod search_results;
pub mod settings_view;
pub mod sidebar;
pub mod sidebar_logic;
pub mod status_bar;
pub mod symbol_finder;
pub mod symbol_overlay;
pub mod text;
pub mod text_input;

verus! {

} // verus!
