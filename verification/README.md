# faber

The logic of the Faber text editor, as a Verus library: what the editor decides and computes, apart
from how it is drawn and where its text comes from.

- `src/` holds the library. Every function states in its contract what it returns or changes, and
  Verus proves it. The text of a document is a `ropey` rope, taken by the sequence of its
  characters; paths and URLs go through `std::path` and `url`.
- `tests/` holds tests on concrete values.
- `app/` holds the program around the library: the window and its views, files, HTTP, the language
  servers, and everything measured in pixels.

| Subject | Modules |
| --- | --- |
| Text, ropes, paths, places in files | `text`, `rope`, `paths`, `path_map`, `locations`, `json`, `order` |
| Documents and edits | `document`, `editing`, `line_cache`, `keys`, `text_input`, `input_helpers` |
| The editor | `editor_view`, `editor_keys`, `editor_frame`, `editor_logic`, `buffer_view`, `line_paint`, `blink` |
| Search in a document and in a project | `search`, `project_search_view`, `search_results`, `matched_text` |
| Completions | `completion_logic`, `completion_menu` |
| Hover popover | `hover_state`, `hover_segments`, `hover_layout`, `hover_popover` |
| Markdown | `markdown`, `markdown_preview` |
| Lists to choose from | `file_finder`, `file_preview`, `symbol_finder`, `symbol_overlay`, `outline_overlay`, `language_picker`, `cycle` |
| Window | `pane`, `panels`, `sidebar`, `sidebar_logic`, `status_bar`, `lsp_status`, `settings_view`, `http` |
