//! Documents as trees of blocks.

use vstd::prelude::*;

use crate::code::{has_block, Code, CodeId};
use crate::tui::markdown::inline::InlineSpan;
use crate::tui::markdown::line::FrontmatterStyle;
use crate::tui::markdown::table::Table;

verus! {

/// The state of a task list item.
#[derive(Clone, Copy, Debug, PartialEq, Eq, Structural)]
pub enum TaskMark {
    Checked,
    InProgress,
    Unchecked,
}

/// The kind of a list item.
#[derive(Clone, Copy, Debug, PartialEq, Eq, Structural)]
pub enum ListKind {
    Bullet,
    Ordered(u64),
    Task(TaskMark),
}

/// A list item with the blocks nested in it.
pub struct ListItem {
    pub text: Vec<InlineSpan>,
    /// One for the items of a list that is not nested in another.
    pub depth: usize,
    pub kind: ListKind,
    pub children: Vec<Node>,
}

/// The kind and the content of a block.
pub enum NodeKind {
    HtmlBlock,
    Frontmatter { style: FrontmatterStyle, raw: String },
    Text(Vec<InlineSpan>),
    Paragraph(Vec<InlineSpan>),
    BlockQuote(Vec<Node>),
    Heading { text: Vec<InlineSpan>, level: u8 },
    List(Vec<ListItem>),
    Code(CodeId),
    Table(Table),
    ThematicBreak,
    Image { alt: String, src: String },
}

/// A block and where it stands in the source, counted in characters.
pub struct Node {
    pub kind: NodeKind,
    pub start: usize,
    pub end: usize,
}

/// The blocks of a tree: HTML lies in the source, code blocks are known, and
/// tables have a countable width.
pub open spec fn node_ok(node: Node, codes: Seq<Code>, len: int) -> bool
    decreases node,
{
    match node.kind {
        NodeKind::HtmlBlock => node.start <= node.end <= len,
        NodeKind::BlockQuote(children) => nodes_ok(children, codes, len),
        NodeKind::List(items) => forall|i: int|
            0 <= i < items@.len() ==> nodes_ok((#[trigger] items@[i]).children, codes, len),
        NodeKind::Code(id) => has_block(codes, id),
        NodeKind::Table(table) => table@.fits(),
        _ => true,
    }
}

/// Some trees are valid.
pub open spec fn nodes_ok(nodes: Vec<Node>, codes: Seq<Code>, len: int) -> bool
    decreases nodes,
{
    forall|i: int| 0 <= i < nodes@.len() ==> node_ok(#[trigger] nodes@[i], codes, len)
}

} // verus!
