//! Lines belong to known code blocks.

use vstd::prelude::*;

use crate::code::{code_of, has_block, lemma_code_of_id, Code, CodeId};
use crate::tui::markdown::ast::{node_ok, nodes_ok, ListItem, Node, NodeKind};
use crate::tui::markdown::inline::inline_view;
use crate::tui::markdown::line::{LogicalView, RenderMode, SourceView};
use crate::tui::markdown::markup::{
    blank_lines, markup_ok, nested_codes, prefix_start, source_views, CodePlace,
};
use crate::tui::markdown::render::{MarkdownRenderer, RenderView};
use crate::tui::markdown::table::table_lines;
use crate::tui::markdown::visual::{
    frontmatter_views, html_views, item_views, table_views, text_views,
};

verus! {

/// A line that belongs to a code block belongs to one of the document's.
pub open spec fn line_known(line: LogicalView, codes: Seq<Code>) -> bool {
    line.code_id is Some ==> has_block(codes, line.code_id->0)
}

/// Lines that belong to code blocks belong to blocks of the document.
#[verifier::opaque]
pub open spec fn lines_known(lines: Seq<LogicalView>, codes: Seq<Code>) -> bool {
    forall|i: int| 0 <= i < lines.len() ==> line_known(#[trigger] lines[i], codes)
}

proof fn lemma_push_known(lines: Seq<LogicalView>, line: LogicalView, codes: Seq<Code>)
    requires
        lines_known(lines, codes),
        line_known(line, codes),
    ensures
        lines_known(lines.push(line), codes),
{
    reveal(lines_known);
}

proof fn lemma_pushed_known(state: RenderView, lines: Seq<LogicalView>, codes: Seq<Code>)
    requires
        lines_known(state.lines, codes),
        lines_known(lines, codes),
    ensures
        lines_known(state.pushed_all(lines).lines, codes),
    decreases lines.len(),
{
    if lines.len() > 0 {
        assert(lines_known(lines.drop_last(), codes) && line_known(lines.last(), codes)) by {
            reveal(lines_known);
            assert forall|i: int| 0 <= i < lines.len() - 1 implies line_known(
                #[trigger] lines.drop_last()[i],
                codes,
            ) by {
                assert(line_known(lines[i], codes));
            }
        }
        lemma_pushed_known(state, lines.drop_last(), codes);
        let before = state.pushed_all(lines.drop_last());
        let line = before.behind_prefixes(lines.last());
        lemma_push_known(
            before.lines,
            LogicalView { node_idx: Some(before.node_idx), ..line },
            codes,
        );
    }
}

proof fn lemma_bare_known(state: RenderView, lines: Seq<LogicalView>, codes: Seq<Code>)
    requires
        lines_known(state.lines, codes),
        lines_known(lines, codes),
    ensures
        lines_known(state.pushed_all_bare(lines).lines, codes),
    decreases lines.len(),
{
    if lines.len() > 0 {
        assert(lines_known(lines.drop_last(), codes) && line_known(lines.last(), codes)) by {
            reveal(lines_known);
            assert forall|i: int| 0 <= i < lines.len() - 1 implies line_known(
                #[trigger] lines.drop_last()[i],
                codes,
            ) by {
                assert(line_known(lines[i], codes));
            }
        }
        lemma_bare_known(state, lines.drop_last(), codes);
        let before = state.pushed_all_bare(lines.drop_last());
        lemma_push_known(
            before.lines,
            LogicalView { node_idx: Some(before.node_idx), ..lines.last() },
            codes,
        );
    }
}

proof fn lemma_one_known(state: RenderView, line: LogicalView, codes: Seq<Code>)
    requires
        lines_known(state.lines, codes),
        line_known(line, codes),
    ensures
        lines_known(state.pushed(line).lines, codes),
{
    lemma_push_known(
        state.lines,
        LogicalView { node_idx: Some(state.node_idx), ..state.behind_prefixes(line) },
        codes,
    );
}

/// Lines outside of code blocks.
pub open spec fn no_block(lines: Seq<LogicalView>) -> bool {
    forall|i: int| 0 <= i < lines.len() ==> (#[trigger] lines[i]).code_id is None
}

proof fn lemma_free_known(lines: Seq<LogicalView>, codes: Seq<Code>)
    requires
        no_block(lines),
    ensures
        lines_known(lines, codes),
{
    reveal(lines_known);
}

proof fn lemma_same_block_known(lines: Seq<LogicalView>, id: CodeId, codes: Seq<Code>)
    requires
        has_block(codes, id),
        forall|i: int| 0 <= i < lines.len() ==> (#[trigger] lines[i]).code_id == Some(id),
    ensures
        lines_known(lines, codes),
{
    reveal(lines_known);
}

/// Without lines there is nothing unknown.
pub proof fn lemma_nothing_unknown(codes: Seq<Code>)
    ensures
        lines_known(Seq::empty(), codes),
{
    reveal(lines_known);
}

/// Only the blocks that lines belong to matter.
pub proof fn lemma_known_by_blocks(
    lines: Seq<LogicalView>,
    others: Seq<LogicalView>,
    codes: Seq<Code>,
)
    requires
        lines_known(others, codes),
        lines.len() == others.len(),
        forall|i: int|
            0 <= i < lines.len() ==> (#[trigger] lines[i]).code_id == others[i].code_id,
    ensures
        lines_known(lines, codes),
{
    reveal(lines_known);
    assert forall|i: int| 0 <= i < lines.len() implies line_known(#[trigger] lines[i], codes) by {
        assert(line_known(others[i], codes));
    }
}

/// A line that belongs to a block belongs to one of the document's.
pub proof fn lemma_known_at(lines: Seq<LogicalView>, codes: Seq<Code>, i: int)
    requires
        lines_known(lines, codes),
        0 <= i < lines.len(),
    ensures
        line_known(lines[i], codes),
{
    reveal(lines_known);
}

impl<'a> MarkdownRenderer<'a> {
    proof fn lemma_code_known(&self, state: RenderView, id: CodeId)
        requires
            lines_known(state.lines, self.codes@),
            has_block(self.codes@, id),
        ensures
            lines_known(self.with_code(state, id).lines, self.codes@),
    {
        let codes = self.codes@;
        let code = code_of(codes, id);
        lemma_code_of_id(codes, id);
        let snapped = state.snapped(id);
        assert(lines_known(snapped.lines, codes)) by {
            reveal(lines_known);
        }
        let noted = snapped.noting_overhead(id);
        lemma_one_known(noted, self.info_view(code, !state.snaps()), codes);
        let info = noted.pushed(self.info_view(code, !state.snaps()));
        lemma_same_block_known(self.body_views(code), id, codes);
        lemma_pushed_known(info, self.body_views(code), codes);
        lemma_same_block_known(self.output_views(code), id, codes);
        lemma_pushed_known(info.pushed_all(self.body_views(code)), self.output_views(code), codes);
    }

    proof fn lemma_free_lines(&self, state: RenderView, lines: Seq<LogicalView>)
        requires
            lines_known(state.lines, self.codes@),
            no_block(lines),
        ensures
            lines_known(state.pushed_all(lines).lines, self.codes@),
            lines_known(state.pushed_all(lines).spaced().lines, self.codes@),
    {
        lemma_free_known(lines, self.codes@);
        lemma_pushed_known(state, lines, self.codes@);
        lemma_one_known(
            state.pushed_all(lines),
            LogicalView::holding(SourceView::Newline),
            self.codes@,
        );
    }

    proof fn lemma_node_known(&self, node: Node, state: RenderView)
        requires
            lines_known(state.lines, self.codes@),
            node_ok(node, self.codes@, self.source@.len() as int),
        ensures
            lines_known(self.visual_node(node, state).lines, self.codes@),
        decreases node, 0nat,
    {
        let codes = self.codes@;
        let s = state.begun();
        match node.kind {
            NodeKind::HtmlBlock => {
                self.lemma_free_lines(
                    s,
                    html_views(self.source@.subrange(node.start as int, node.end as int)),
                );
            },
            NodeKind::Frontmatter { style, raw } => {
                self.lemma_free_lines(s, frontmatter_views(style, raw@));
            },
            NodeKind::Text(spans) => {
                self.lemma_free_lines(s, text_views(inline_view(spans@)));
            },
            NodeKind::Paragraph(spans) => {
                self.lemma_free_lines(s, text_views(inline_view(spans@)));
            },
            NodeKind::BlockQuote(children) => {
                self.lemma_nodes_known(children, s.quoted(*self.theme), children@.len());
            },
            NodeKind::Heading { text, level } => {
                let heading = LogicalView {
                    is_block_start: true,
                    ..LogicalView::holding(
                        SourceView::Heading {
                            level,
                            text: crate::tui::markdown::line::TextView::of_spans(
                                crate::tui::markdown::visual::heading_pieces(
                                    inline_view(text@),
                                    level,
                                ),
                            ),
                        },
                    )
                };
                lemma_one_known(s, heading, codes);
                lemma_one_known(
                    s.pushed(heading),
                    LogicalView::holding(SourceView::ThematicBreak),
                    codes,
                );
            },
            NodeKind::List(items) => {
                self.lemma_items_known(items, s, items@.len());
                lemma_one_known(
                    self.visual_items(items, s, items@.len()),
                    LogicalView::holding(SourceView::Newline),
                    codes,
                );
            },
            NodeKind::Code(id) => {
                self.lemma_code_known(s, id);
            },
            NodeKind::Table(table) => {
                let lines = table_lines(
                    *self.painter,
                    *self.theme,
                    table@,
                    self.table_width(crate::style::line_text(s.prefixes).len() as int),
                );
                self.lemma_free_lines(s, table_views(table@, lines));
            },
            NodeKind::ThematicBreak => {
                let line = LogicalView {
                    is_block_start: true,
                    ..LogicalView::holding(SourceView::ThematicBreak)
                };
                lemma_one_known(s, line, codes);
                lemma_one_known(s.pushed(line), LogicalView::holding(SourceView::Newline), codes);
            },
            NodeKind::Image { alt, src } => {
                let line = LogicalView {
                    is_block_start: true,
                    ..LogicalView::holding(SourceView::Image { alt: alt@, src: src@ })
                };
                lemma_one_known(s, line, codes);
                lemma_one_known(s.pushed(line), LogicalView::holding(SourceView::Newline), codes);
            },
        }
    }

    proof fn lemma_nodes_known(&self, nodes: Vec<Node>, state: RenderView, n: nat)
        requires
            lines_known(state.lines, self.codes@),
            nodes_ok(nodes, self.codes@, self.source@.len() as int),
        ensures
            lines_known(self.visual_nodes(nodes, state, n).lines, self.codes@),
        decreases nodes, n,
    {
        if 0 < n <= nodes@.len() {
            self.lemma_nodes_known(nodes, state, (n - 1) as nat);
            assert(decreases_to!(nodes => nodes@[n - 1]));
            self.lemma_node_known(
                nodes@[n - 1],
                self.visual_nodes(nodes, state, (n - 1) as nat),
            );
        }
    }

    proof fn lemma_items_known(&self, items: Vec<ListItem>, state: RenderView, n: nat)
        requires
            lines_known(state.lines, self.codes@),
            forall|i: int|
                0 <= i < items@.len() ==> nodes_ok(
                    (#[trigger] items@[i]).children,
                    self.codes@,
                    self.source@.len() as int,
                ),
        ensures
            lines_known(self.visual_items(items, state, n).lines, self.codes@),
        decreases items, n,
    {
        if 0 < n <= items@.len() {
            self.lemma_items_known(items, state, (n - 1) as nat);
            let before = self.visual_items(items, state, (n - 1) as nat);
            let item = items@[n - 1];
            assert(decreases_to!(items => items@[n - 1]));
            self.lemma_free_lines(before, item_views(item, n == 1, *self.theme));
            self.lemma_nodes_known(
                item.children,
                before.pushed_all(item_views(item, n == 1, *self.theme)),
                item.children@.len(),
            );
        }
    }

    proof fn lemma_source_known(&self, state: RenderView, from: int, to: int)
        requires
            lines_known(state.lines, self.codes@),
        ensures
            lines_known(state.with_source(self.source@, from, to).lines, self.codes@),
            lines_known(state.with_gap(self.source@, from, to).lines, self.codes@),
    {
        let lines = source_views(self.source@.subrange(from, to));
        lemma_free_known(lines, self.codes@);
        lemma_bare_known(state, lines, self.codes@);
        let blanks = Seq::new(
            blank_lines(self.source@, from, to),
            |i: int| LogicalView::holding(SourceView::Newline),
        );
        lemma_free_known(blanks, self.codes@);
        lemma_bare_known(state, blanks, self.codes@);
    }

    proof fn lemma_markup_code_known(&self, state: RenderView, id: CodeId)
        requires
            lines_known(state.lines, self.codes@),
            has_block(self.codes@, id),
        ensures
            lines_known(self.markup_code(state, id).lines, self.codes@),
    {
        self.lemma_code_known(state.begun(), id);
        let shown = self.with_code(state.begun(), id);
        assert(lines_known(shown.closed(id).lines, self.codes@)) by {
            reveal(lines_known);
        }
    }

    proof fn lemma_codes_known(&self, state: RenderView, places: Seq<CodePlace>, start: int, n: nat)
        requires
            lines_known(state.lines, self.codes@),
            n <= places.len(),
            forall|i: int|
                0 <= i < places.len() ==> has_block(self.codes@, (#[trigger] places[i]).id),
        ensures
            lines_known(self.markup_codes(state, places, start, n).lines, self.codes@),
        decreases n,
    {
        if n > 0 {
            self.lemma_codes_known(state, places, start, (n - 1) as nat);
            let before = self.markup_codes(state, places, start, (n - 1) as nat);
            let code = places[n - 1];
            let cursor = self.cursor_behind(places, start, (n - 1) as nat);
            let raw_end = prefix_start(
                self.source@,
                cursor,
                code.start as int,
                code.quote_depth as int,
            );
            self.lemma_source_known(before, cursor, raw_end);
            let shown = before.with_source(self.source@, cursor, raw_end);
            let inside = RenderView {
                quote_depth: code.quote_depth,
                prefixes: self.code_prefixes(raw_end, code.start as int),
                ..shown
            };
            self.lemma_markup_code_known(inside, code.id);
        }
    }

    proof fn lemma_markup_known(&self, nodes: Seq<Node>, n: nat)
        requires
            n <= nodes.len(),
            forall|i: int|
                0 <= i < nodes.len() ==> markup_ok(
                    #[trigger] nodes[i],
                    0,
                    self.codes@,
                    self.source@,
                ),
        ensures
            lines_known(self.markup_nodes(nodes, RenderView::start(), n).lines, self.codes@),
        decreases n,
    {
        if n == 0 {
            lemma_free_known(Seq::empty(), self.codes@);
        } else {
            self.lemma_markup_known(nodes, (n - 1) as nat);
            self.lemma_markup_depth(nodes, RenderView::start(), (n - 1) as nat);
            let before = self.markup_nodes(nodes, RenderView::start(), (n - 1) as nat);
            let from = self.source_cursor(nodes, (n - 1) as nat);
            let node = nodes[n - 1];
            self.lemma_source_known(before, from, node.start as int);
            let gap = before.with_gap(self.source@, from, node.start as int);
            self.lemma_gap_depth(before, from, node.start as int);
            assert(markup_ok(nodes[n - 1], 0, self.codes@, self.source@));
            match node.kind {
                NodeKind::Code(id) => {
                    self.lemma_markup_code_known(gap, id);
                },
                _ => {
                    let s = gap.begun();
                    let places = nested_codes(node, s.quote_depth);
                    self.lemma_codes_known(s, places, node.start as int, places.len());
                    self.lemma_source_known(
                        self.markup_codes(s, places, node.start as int, places.len()),
                        self.cursor_behind(places, node.start as int, places.len()),
                        node.end as int,
                    );
                },
            }
        }
    }

    /// Every line that belongs to a code block belongs to one of the document's.
    pub proof fn law_lines_belong_to_known_blocks(&self, nodes: Vec<Node>)
        requires
            self.accepts(nodes),
        ensures
            lines_known(self.rendered(nodes).lines, self.codes@),
    {
        match self.mode {
            RenderMode::Visual => {
                lemma_free_known(Seq::empty(), self.codes@);
                self.lemma_nodes_known(nodes, RenderView::start(), nodes@.len());
            },
            RenderMode::Markup => {
                self.lemma_markup_known(nodes@, nodes@.len());
                self.lemma_source_known(
                    self.markup_nodes(nodes@, RenderView::start(), nodes@.len()),
                    self.source_cursor(nodes@, nodes@.len()),
                    self.source@.len() as int,
                );
            },
        }
    }
}

} // verus!
