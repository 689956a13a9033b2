//! What the operations of the editor are for, as relations between what goes in and what comes
//! out.
pub mod completions;
pub mod editing;
pub mod hover;
pub mod painting;
pub mod panels;
pub mod popover;
pub mod project_search;
pub mod texts;
pub mod views;
