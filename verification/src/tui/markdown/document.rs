//! Documents as lines.

use std::collections::HashMap;

use vstd::prelude::*;

use crate::code::{find_block, has_block, Code, CodeId};
use crate::text::chars_of;
use crate::theme::Theme;
use crate::theme_library::Painter;
use crate::tui::markdown::ast::{node_ok, nodes_ok, ListItem, Node, NodeKind};
use crate::tui::markdown::line::{lines_wf, logical_views, LogicalLine, RenderMode};
use crate::tui::markdown::markup::{
    after_line_ending, codes_follow, collect_node, lemma_pushed_keeps, markup_ok, nested_codes,
    CodePlace,
};
use crate::tui::markdown::render::{MarkdownRenderer, RenderState, RenderView, SnapContext};
use crate::tui::markdown::inline::inline_view;
use crate::tui::markdown::table::table_lines;
use crate::tui::markdown::visual::{
    frontmatter_views, html_views, item_views, table_views, text_views,
};
use crate::tui::tasks::TaskOutput;

verus! {

/// A document can be shown: its code blocks are known, its tables have a countable
/// width, and its blocks lie where the source has them.
pub open spec fn document_ok(nodes: Vec<Node>, codes: Seq<Code>, source: Seq<char>) -> bool {
    &&& nodes_ok(nodes, codes, source.len() as int)
    &&& forall|i: int|
        0 <= i < nodes@.len() ==> markup_ok(#[trigger] nodes@[i], 0, codes, source)
}

/// The lines of a document, and how much stands in front of its code blocks.
pub struct RenderedMarkdown {
    pub lines: Vec<LogicalLine>,
    pub code_prefix_overhead: HashMap<CodeId, usize>,
}

impl<'a> MarkdownRenderer<'a> {
    /// Shows documents visually.
    pub fn new(
        source: &'a str,
        theme: &'a Theme,
        painter: &'a Painter,
        outputs: &'a HashMap<CodeId, TaskOutput>,
        codes: &'a [Code],
        inline_max_lines: usize,
        viewport_width: usize,
    ) -> (renderer: MarkdownRenderer<'a>)
        ensures
            renderer == (MarkdownRenderer {
                theme,
                painter,
                source,
                outputs,
                codes,
                inline_max_lines,
                viewport_width,
                mode: RenderMode::Visual,
            }),
    {
        MarkdownRenderer {
            theme,
            painter,
            source,
            outputs,
            codes,
            inline_max_lines,
            viewport_width,
            mode: RenderMode::Visual,
        }
    }

    /// Shows documents in another mode.
    pub fn mode(self, mode: RenderMode) -> (renderer: MarkdownRenderer<'a>)
        ensures
            renderer == (MarkdownRenderer { mode, ..self }),
    {
        let mut renderer = self;
        renderer.mode = mode;
        renderer
    }

    /// A document can be shown.
    pub open spec fn accepts(&self, nodes: Vec<Node>) -> bool {
        document_ok(nodes, self.codes@, self.source@)
    }

    /// A document as it is shown.
    pub open spec fn rendered(&self, nodes: Vec<Node>) -> RenderView {
        match self.mode {
            RenderMode::Visual => self.visual_nodes(nodes, RenderView::start(), nodes@.len()),
            RenderMode::Markup => self.markup_document(nodes@, RenderView::start()),
        }
    }

    /// Turns a document into lines.
    pub fn render(&self, nodes: &Vec<Node>) -> (out: RenderedMarkdown)
        requires
            self.accepts(*nodes),
        ensures
            logical_views(out.lines@) == self.rendered(*nodes).lines,
            out.code_prefix_overhead@ == self.rendered(*nodes).overhead,
            lines_wf(out.lines@),
    {
        let mut state = RenderState::new();
        match self.mode {
            RenderMode::Visual => self.render_visual(nodes, &mut state),
            RenderMode::Markup => self.render_markup(nodes, &mut state),
        }
        RenderedMarkdown { lines: state.lines, code_prefix_overhead: state.overhead }
    }

    /// A block leaves nothing behind but its lines, its number, and what a
    /// following code block is shown with; a block quote not even that.
    pub proof fn law_blocks_leave_no_trace(&self, node: Node, state: RenderView)
        ensures
            self.visual_node(node, state).prefixes == state.prefixes,
            self.visual_node(node, state).quote_depth == state.quote_depth,
            self.visual_node(node, state).node_idx == state.node_idx,
            self.visual_node(node, state).lines.len() >= state.lines.len(),
            node.kind is BlockQuote ==> self.visual_node(node, state).snap == state.snap,
            node.kind is Code ==> self.visual_node(node, state).snap == SnapContext::none(),
        decreases node, 0nat,
    {
        let s = state.begun();
        match node.kind {
            NodeKind::HtmlBlock => {
                lemma_pushed_keeps(
                    s,
                    html_views(self.source@.subrange(node.start as int, node.end as int)),
                );
            },
            NodeKind::Frontmatter { style, raw } => {
                lemma_pushed_keeps(s, frontmatter_views(style, raw@));
            },
            NodeKind::Text(spans) => {
                lemma_pushed_keeps(s, text_views(inline_view(spans@)));
            },
            NodeKind::Paragraph(spans) => {
                lemma_pushed_keeps(s, text_views(inline_view(spans@)));
            },
            NodeKind::BlockQuote(children) => {
                self.lemma_nodes_leave_no_trace(
                    children,
                    s.quoted(*self.theme),
                    children@.len(),
                );
            },
            NodeKind::List(items) => {
                self.lemma_items_leave_no_trace(items, s, items@.len());
            },
            NodeKind::Code(id) => {
                self.law_code_leaves_no_trace(s, id);
            },
            NodeKind::Table(table) => {
                let lines = table_lines(
                    *self.painter,
                    *self.theme,
                    table@,
                    self.table_width(crate::style::line_text(s.prefixes).len() as int),
                );
                lemma_pushed_keeps(s, table_views(table@, lines));
            },
            _ => {},
        }
    }

    proof fn lemma_nodes_leave_no_trace(&self, nodes: Vec<Node>, state: RenderView, n: nat)
        ensures
            self.visual_nodes(nodes, state, n).prefixes == state.prefixes,
            self.visual_nodes(nodes, state, n).quote_depth == state.quote_depth,
            self.visual_nodes(nodes, state, n).node_idx == state.node_idx,
            self.visual_nodes(nodes, state, n).lines.len() >= state.lines.len(),
        decreases nodes, n,
    {
        if 0 < n <= nodes@.len() {
            self.lemma_nodes_leave_no_trace(nodes, state, (n - 1) as nat);
            assert(decreases_to!(nodes => nodes@[n - 1]));
            self.law_blocks_leave_no_trace(
                nodes@[n - 1],
                self.visual_nodes(nodes, state, (n - 1) as nat),
            );
        }
    }

    proof fn lemma_items_leave_no_trace(&self, items: Vec<ListItem>, state: RenderView, n: nat)
        ensures
            self.visual_items(items, state, n).prefixes == state.prefixes,
            self.visual_items(items, state, n).quote_depth == state.quote_depth,
            self.visual_items(items, state, n).node_idx == state.node_idx,
            self.visual_items(items, state, n).lines.len() >= state.lines.len(),
        decreases items, n,
    {
        if 0 < n <= items@.len() {
            self.lemma_items_leave_no_trace(items, state, (n - 1) as nat);
            let before = self.visual_items(items, state, (n - 1) as nat);
            let item = items@[n - 1];
            assert(decreases_to!(items => items@[n - 1]));
            lemma_pushed_keeps(before, item_views(item, n == 1, *self.theme));
            self.lemma_nodes_leave_no_trace(
                item.children,
                before.pushed_all(item_views(item, n == 1, *self.theme)),
                item.children@.len(),
            );
        }
    }
}

fn check_node(node: &Node, codes: &[Code], len: usize) -> (ok: bool)
    ensures
        ok == node_ok(*node, codes@, len as int),
    decreases *node, 0nat,
{
    match &node.kind {
        NodeKind::HtmlBlock => node.start <= node.end && node.end <= len,
        NodeKind::BlockQuote(children) => check_nodes(children, codes, len),
        NodeKind::List(items) => check_items(items, codes, len),
        NodeKind::Code(id) => find_block(codes, *id).is_some(),
        NodeKind::Table(table) => table.is_countable(),
        _ => true,
    }
}

fn check_nodes(nodes: &Vec<Node>, codes: &[Code], len: usize) -> (ok: bool)
    ensures
        ok == nodes_ok(*nodes, codes@, len as int),
    decreases *nodes, 1nat,
{
    let mut i: usize = 0;
    while i < nodes.len()
        invariant
            i <= nodes@.len(),
            forall|k: int| 0 <= k < i ==> node_ok(#[trigger] nodes@[k], codes@, len as int),
        decreases nodes@.len() - i,
    {
        assert(decreases_to!(*nodes => nodes@[i as int]));
        if !check_node(&nodes[i], codes, len) {
            return false;
        }
        i += 1;
    }
    true
}

fn check_items(items: &Vec<ListItem>, codes: &[Code], len: usize) -> (ok: bool)
    ensures
        ok == (forall|i: int|
            0 <= i < items@.len() ==> nodes_ok(
                (#[trigger] items@[i]).children,
                codes@,
                len as int,
            )),
    decreases *items, 1nat,
{
    let mut i: usize = 0;
    while i < items.len()
        invariant
            i <= items@.len(),
            forall|k: int|
                0 <= k < i ==> nodes_ok((#[trigger] items@[k]).children, codes@, len as int),
        decreases items@.len() - i,
    {
        assert(decreases_to!(*items => items@[i as int]));
        if !check_nodes(&items[i].children, codes, len) {
            return false;
        }
        i += 1;
    }
    true
}

fn check_places(chars: &Vec<char>, start: usize, places: &Vec<CodePlace>, codes: &[Code]) -> (ok: bool)
    ensures
        ok == (codes_follow(chars@, start as int, places@) && forall|i: int|
            0 <= i < places@.len() ==> has_block(codes@, (#[trigger] places@[i]).id)),
{
    let mut cursor: usize = start;
    let mut i: usize = 0;
    assert(places@.skip(0) =~= places@);
    while i < places.len()
        invariant
            i <= places@.len(),
            codes_follow(chars@, start as int, places@) == codes_follow(
                chars@,
                cursor as int,
                places@.skip(i as int),
            ),
            forall|k: int| 0 <= k < i ==> has_block(codes@, (#[trigger] places@[k]).id),
        decreases places@.len() - i,
    {
        let place = places[i];
        assert(places@.skip(i as int)[0] == place);
        assert(places@.skip(i as int).drop_first() =~= places@.skip(i + 1));
        if cursor > place.start || place.start > chars.len() {
            return false;
        }
        if find_block(codes, place.id).is_none() {
            assert(!has_block(codes@, places@[i as int].id));
            return false;
        }
        cursor = after_line_ending(chars, cursor.max(place.end));
        i += 1;
    }
    true
}

/// Whether a document can be shown.
pub fn check_document(nodes: &Vec<Node>, codes: &[Code], source: &str) -> (ok: bool)
    ensures
        ok == document_ok(*nodes, codes@, source@),
{
    let chars = chars_of(source);
    if !check_nodes(nodes, codes, chars.len()) {
        return false;
    }
    let mut i: usize = 0;
    while i < nodes.len()
        invariant
            i <= nodes@.len(),
            chars@ == source@,
            nodes_ok(*nodes, codes@, source@.len() as int),
            forall|k: int|
                0 <= k < i ==> markup_ok(#[trigger] nodes@[k], 0, codes@, source@),
        decreases nodes@.len() - i,
    {
        let node = &nodes[i];
        let mut places: Vec<CodePlace> = Vec::new();
        if let NodeKind::Code(id) = &node.kind {
            if find_block(codes, *id).is_none() {
                assert(!markup_ok(nodes@[i as int], 0, codes@, source@));
                return false;
            }
        } else {
            collect_node(node, 0, &mut places);
            assert(places@ =~= nested_codes(*node, 0));
            if !check_places(&chars, node.start, &places, codes) {
                assert(!markup_ok(nodes@[i as int], 0, codes@, source@));
                return false;
            }
        }
        i += 1;
    }
    true
}

} // verus!
