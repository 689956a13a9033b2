//! Parsed documents: syntax tokens, outlines and Markdown blocks, as a parser hands them over.
use vstd::prelude::*;

verus! {

/// What a stretch of source text is.
#[derive(Debug, Clone, Copy, PartialEq, Eq, Structural)]
pub enum SyntaxToken {
    Keyword,
    Function,
    Type,
    String,
    Number,
    Comment,
    Constant,
    Operator,
    Punctuation,
    Variable,
    Property,
    Attribute,
    Namespace,
    Tag,
    Label,
}

/// A stretch of one line, in bytes, and what it is. An end of `u32::MAX` is the end of the line.
#[derive(Debug, Clone, Copy, PartialEq, Eq, Structural)]
pub struct HighlightSpan {
    pub start_byte_col: u32,
    pub end_byte_col: u32,
    pub token: SyntaxToken,
}

/// One entry of an outline: a heading, a function, a type.
#[derive(Debug)]
pub struct OutlineItem {
    pub depth: u32,
    pub name: String,
    pub context: Option<String>,
    pub source_line: usize,
    pub end_line: usize,
    /// The block that a heading of a Markdown document is; `None` for code.
    pub block_ix: Option<usize>,
}

/// The outline of a document, in the order of its lines.
#[derive(Debug)]
pub struct Outline {
    pub items: Vec<OutlineItem>,
}

/// How a stretch of Markdown text is set.
#[derive(Debug, Clone, Copy, PartialEq, Eq, Structural)]
pub struct InlineStyle {
    pub bold: bool,
    pub italic: bool,
    pub code: bool,
    pub strike: bool,
}

/// A piece of Markdown within a block.
#[derive(Debug)]
pub enum InlineRun {
    Text { text: String, style: InlineStyle, link: Option<String> },
    SoftBreak,
    HardBreak,
    Image { alt: String, dest: String, link: Option<String> },
}

/// A copy of a text that may be missing.
pub fn copy_text(t: &Option<String>) -> (r: Option<String>)
    ensures
        r == *t,
{
    match t {
        Some(s) => Some(s.clone()),
        None => None,
    }
}

impl Clone for InlineRun {
    fn clone(&self) -> (r: Self)
        ensures
            r == *self,
    {
        match self {
            InlineRun::Text { text, style, link } => InlineRun::Text {
                text: text.clone(),
                style: *style,
                link: copy_text(link),
            },
            InlineRun::SoftBreak => InlineRun::SoftBreak,
            InlineRun::HardBreak => InlineRun::HardBreak,
            InlineRun::Image { alt, dest, link } => InlineRun::Image {
                alt: alt.clone(),
                dest: dest.clone(),
                link: copy_text(link),
            },
        }
    }
}

impl Clone for OutlineItem {
    fn clone(&self) -> (r: Self)
        ensures
            r == *self,
    {
        OutlineItem {
            depth: self.depth,
            name: self.name.clone(),
            context: copy_text(&self.context),
            source_line: self.source_line,
            end_line: self.end_line,
            block_ix: self.block_ix,
        }
    }
}

/// One item of a list.
#[derive(Debug)]
pub struct ListItem {
    /// Whether a task is done; `None` for an item that is no task.
    pub task: Option<bool>,
    pub blocks: Vec<Block>,
}

/// What a Markdown block is.
#[derive(Debug)]
pub enum BlockKind {
    Heading { level: u8, inlines: Vec<InlineRun> },
    Paragraph { inlines: Vec<InlineRun> },
    CodeBlock { lang: Option<String>, text: String, highlights: Vec<Vec<HighlightSpan>> },
    Blockquote { children: Vec<Block> },
    List { ordered: bool, start: u64, items: Vec<ListItem> },
    Table { head: Vec<Vec<InlineRun>>, rows: Vec<Vec<Vec<InlineRun>>> },
    Rule,
    HtmlBlock { text: String },
}

/// A Markdown block, with the source lines that it comes from.
#[derive(Debug)]
pub struct Block {
    pub kind: BlockKind,
    pub first_line: usize,
    pub end_line: usize,
}

/// A parsed Markdown document.
#[derive(Debug)]
pub struct MarkdownDoc {
    pub blocks: Vec<Block>,
}

} // verus!
