//! Panels that list what was found in files.
pub mod diagnostics_panel;
pub mod references_panel;
pub mod results_list;
