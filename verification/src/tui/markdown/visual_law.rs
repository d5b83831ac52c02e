//! How the blocks of a document are laid out, one below the other.

use vstd::prelude::*;

use crate::style::Style;
use crate::tui::markdown::ast::{ListItem, Node, NodeKind};
use crate::tui::markdown::inline::{inline_view, split_inline};
use crate::tui::markdown::line::{LogicalView, SourceView};
use crate::tui::markdown::render::{MarkdownRenderer, RenderView};
use crate::tui::markdown::visual::{
    frontmatter_views, heading_pieces, html_views, item_views, table_views, text_views,
};

verus! {

/// What stands in front of a line starts with these prefixes.
pub open spec fn stands_behind(line: LogicalView, prefixes: Seq<(Seq<char>, Style)>) -> bool {
    &&& prefixes.len() <= line.prefixes.len()
    &&& line.prefixes.take(prefixes.len() as int) == prefixes
}

impl RenderView {
    /// Lines were appended to these, each behind what stands in front of every line.
    #[verifier::opaque]
    pub open spec fn grown_to(self, after: RenderView) -> bool {
        &&& self.lines.len() <= after.lines.len()
        &&& after.prefixes == self.prefixes
        &&& forall|i: int|
            0 <= i < self.lines.len() ==> (#[trigger] after.lines[i]).source
                == self.lines[i].source && after.lines[i].prefixes == self.lines[i].prefixes
        &&& forall|i: int|
            self.lines.len() <= i < after.lines.len() ==> stands_behind(
                #[trigger] after.lines[i],
                self.prefixes,
            )
    }

    proof fn lemma_grown_further(self, middle: RenderView, after: RenderView)
        requires
            self.grown_to(middle),
            middle.grown_to(after),
        ensures
            self.grown_to(after),
    {
        reveal(RenderView::grown_to);
        assert forall|i: int| 0 <= i < self.lines.len() implies (#[trigger] after.lines[i]).source
            == self.lines[i].source && after.lines[i].prefixes == self.lines[i].prefixes by {
            assert(middle.lines[i].source == self.lines[i].source);
        }
        assert forall|i: int| self.lines.len() <= i < after.lines.len() implies stands_behind(
            #[trigger] after.lines[i],
            self.prefixes,
        ) by {
            if i < middle.lines.len() {
                assert(stands_behind(middle.lines[i], self.prefixes));
                assert(after.lines[i].prefixes == middle.lines[i].prefixes);
            }
        }
    }

    proof fn lemma_pushed(self, line: LogicalView)
        ensures
            self.grown_to(self.pushed(line)),
            self.pushed(line).lines.len() == self.lines.len() + 1,
            self.pushed(line).lines.last().source == line.source,
    {
        reveal(RenderView::grown_to);
        let shown = self.behind_prefixes(line);
        assert((self.prefixes + line.prefixes).take(self.prefixes.len() as int) =~= self.prefixes);
        assert(stands_behind(self.pushed(line).lines.last(), self.prefixes));
    }

    proof fn lemma_pushed_all(self, lines: Seq<LogicalView>)
        ensures
            self.grown_to(self.pushed_all(lines)),
            self.pushed_all(lines).lines.len() == self.lines.len() + lines.len(),
        decreases lines.len(),
    {
        if lines.len() == 0 {
            self.lemma_same(self);
        } else {
            let less = lines.drop_last();
            self.lemma_pushed_all(less);
            let before = self.pushed_all(less);
            before.lemma_pushed(lines.last());
            self.lemma_grown_further(before, self.pushed_all(lines));
        }
    }

    proof fn lemma_same(self, after: RenderView)
        requires
            after.lines == self.lines,
            after.prefixes == self.prefixes,
        ensures
            self.grown_to(after),
    {
        reveal(RenderView::grown_to);
    }

    proof fn lemma_alike(self, other: RenderView, after: RenderView, end: RenderView)
        requires
            other.lines == self.lines,
            other.prefixes == self.prefixes,
            end.lines == after.lines,
            end.prefixes == after.prefixes,
            self.grown_to(after),
        ensures
            other.grown_to(end),
    {
        reveal(RenderView::grown_to);
    }
}

impl<'a> MarkdownRenderer<'a> {
    proof fn lemma_code_grows(&self, state: RenderView, id: crate::code::CodeId)
        ensures
            state.grown_to(self.with_code(state, id)),
    {
        let code = crate::code::code_of(self.codes@, id);
        let noted = state.snapped(id).noting_overhead(id);
        assert(state.grown_to(noted)) by {
            reveal(RenderView::grown_to);
        }
        let info = self.info_view(code, !state.snaps());
        noted.lemma_pushed(info);
        noted.pushed(info).lemma_pushed_all(self.body_views(code));
        let body = noted.pushed(info).pushed_all(self.body_views(code));
        body.lemma_pushed_all(self.output_views(code));
        state.lemma_grown_further(noted, noted.pushed(info));
        state.lemma_grown_further(noted.pushed(info), body);
        state.lemma_grown_further(body, self.with_code(state, id));
    }

    proof fn lemma_spaced(&self, state: RenderView, middle: RenderView)
        requires
            state.grown_to(middle),
        ensures
            state.grown_to(middle.spaced()),
    {
        middle.lemma_pushed(LogicalView::holding(SourceView::Newline));
        state.lemma_grown_further(middle, middle.spaced());
    }

    /// A block is shown below those before it: it takes none of their lines away, nor
    /// changes what they show, and its own lines stand behind whatever stands in front
    /// of all lines there.
    pub proof fn law_blocks_are_shown_below(&self, node: Node, state: RenderView)
        ensures
            state.grown_to(self.visual_node(node, state)),
        decreases node, 0nat,
    {
        let s = state.begun();
        let after = self.visual_node(node, state);
        let line = s.lines.len() as usize;
        match node.kind {
            NodeKind::HtmlBlock => {
                let lines = html_views(
                    self.source@.subrange(node.start as int, node.end as int),
                );
                s.lemma_pushed_all(lines);
                self.lemma_spaced(s, s.pushed_all(lines));
                s.lemma_alike(state, s.pushed_all(lines).spaced(), after);
            },
            NodeKind::Frontmatter { style, raw } => {
                let lines = frontmatter_views(style, raw@);
                s.lemma_pushed_all(lines);
                self.lemma_spaced(s, s.pushed_all(lines));
                s.lemma_alike(state, s.pushed_all(lines).spaced(), after);
            },
            NodeKind::Text(spans) => {
                let lines = text_views(inline_view(spans@));
                s.lemma_pushed_all(lines);
                self.lemma_spaced(s, s.pushed_all(lines));
                s.lemma_alike(state, s.pushed_all(lines).spaced(), after);
            },
            NodeKind::Paragraph(spans) => {
                let lines = text_views(inline_view(spans@));
                s.lemma_pushed_all(lines);
                self.lemma_spaced(s, s.pushed_all(lines));
                s.lemma_alike(state, s.pushed_all(lines).spaced(), after);
            },
            NodeKind::BlockQuote(children) => {
                let inside = s.quoted(*self.theme);
                assert(decreases_to!(node => children));
                self.law_children_are_shown_below(children, inside, children@.len());
                let shown = self.visual_nodes(children, inside, children@.len());
                assert(state.grown_to(after)) by {
                    reveal(RenderView::grown_to);
                    assert forall|i: int|
                        state.lines.len() <= i < after.lines.len() implies stands_behind(
                        #[trigger] after.lines[i],
                        state.prefixes,
                    ) by {
                        let at = shown.lines[i];
                        assert(stands_behind(at, inside.prefixes));
                        assert(at.prefixes.take(state.prefixes.len() as int) =~= at.prefixes.take(
                            inside.prefixes.len() as int,
                        ).take(state.prefixes.len() as int));
                        assert(inside.prefixes.take(state.prefixes.len() as int)
                            =~= state.prefixes);
                    }
                    assert forall|i: int| 0 <= i < state.lines.len() implies (
                    #[trigger] after.lines[i]).source == state.lines[i].source
                        && after.lines[i].prefixes == state.lines[i].prefixes by {
                        assert(shown.lines[i].source == inside.lines[i].source);
                    }
                }
            },
            NodeKind::Heading { text, level } => {
                let heading = LogicalView {
                    is_block_start: true,
                    ..LogicalView::holding(
                        SourceView::Heading {
                            level,
                            text: crate::tui::markdown::line::TextView::of_spans(
                                heading_pieces(inline_view(text@), level),
                            ),
                        },
                    )
                };
                let shown = s.pushed(heading);
                let rule = LogicalView::holding(SourceView::ThematicBreak);
                s.lemma_pushed(heading);
                shown.lemma_pushed(rule);
                s.lemma_grown_further(shown, shown.pushed(rule));
                if level <= 2 {
                    s.lemma_alike(state, shown.pushed(rule), after);
                } else {
                    s.lemma_alike(state, shown, after);
                }
            },
            NodeKind::List(items) => {
                assert(decreases_to!(node => items));
                self.law_items_are_shown_below(items, s, items@.len());
                let shown = self.visual_items(items, s, items@.len());
                self.lemma_spaced(s, shown);
                if items@.len() > 0 && items@[0].depth == 1 {
                    s.lemma_alike(state, shown.spaced(), after);
                } else {
                    s.lemma_alike(state, shown, after);
                }
            },
            NodeKind::Code(id) => {
                self.lemma_code_grows(s, id);
                s.lemma_alike(state, self.with_code(s, id), after);
            },
            NodeKind::Table(table) => {
                let lines = table_views(
                    table@,
                    crate::tui::markdown::table::table_lines(
                        *self.painter,
                        *self.theme,
                        table@,
                        self.table_width(crate::style::line_text(s.prefixes).len() as int),
                    ),
                );
                s.lemma_pushed_all(lines);
                self.lemma_spaced(s, s.pushed_all(lines));
                s.lemma_alike(state, s.pushed_all(lines).spaced(), after);
            },
            NodeKind::ThematicBreak => {
                let rule = LogicalView {
                    is_block_start: true,
                    ..LogicalView::holding(SourceView::ThematicBreak)
                };
                s.lemma_pushed(rule);
                self.lemma_spaced(s, s.pushed(rule));
                s.lemma_alike(state, s.pushed(rule).spaced(), after);
            },
            NodeKind::Image { alt, src } => {
                let image = LogicalView {
                    is_block_start: true,
                    ..LogicalView::holding(SourceView::Image { alt: alt@, src: src@ })
                };
                s.lemma_pushed(image);
                self.lemma_spaced(s, s.pushed(image));
                s.lemma_alike(state, s.pushed(image).spaced(), after);
            },
        }
    }

    /// Blocks are shown one below the other.
    pub proof fn law_children_are_shown_below(&self, nodes: Vec<Node>, state: RenderView, n: nat)
        ensures
            state.grown_to(self.visual_nodes(nodes, state, n)),
        decreases nodes, n,
    {
        if 0 < n <= nodes@.len() {
            self.law_children_are_shown_below(nodes, state, (n - 1) as nat);
            let before = self.visual_nodes(nodes, state, (n - 1) as nat);
            assert(decreases_to!(nodes => nodes@[n - 1]));
            self.law_blocks_are_shown_below(nodes@[n - 1], before);
            state.lemma_grown_further(before, self.visual_nodes(nodes, state, n));
        } else {
            state.lemma_same(state);
        }
    }

    /// The items of a list are shown one below the other, each with the blocks in it.
    pub proof fn law_items_are_shown_below(&self, items: Vec<ListItem>, state: RenderView, n: nat)
        ensures
            state.grown_to(self.visual_items(items, state, n)),
        decreases items, n,
    {
        if 0 < n <= items@.len() {
            self.law_items_are_shown_below(items, state, (n - 1) as nat);
            let before = self.visual_items(items, state, (n - 1) as nat);
            let item = items@[n - 1];
            let lines = item_views(item, n == 1, *self.theme);
            before.lemma_pushed_all(lines);
            let shown = before.pushed_all(lines);
            state.lemma_grown_further(before, shown);
            assert(decreases_to!(items => items@[n - 1]));
            self.law_children_are_shown_below(item.children, shown, item.children@.len());
            state.lemma_grown_further(shown, self.visual_items(items, state, n));
        } else {
            state.lemma_same(state);
        }
    }

    /// The lines of an item are shown before those of the blocks in it, and those of the
    /// next item behind them: the first line of the item with a number shows its marker,
    /// and its text.
    pub proof fn law_items_are_shown_in_order(
        &self,
        items: Vec<ListItem>,
        state: RenderView,
        n: nat,
        j: int,
    )
        requires
            0 < n <= items@.len(),
            0 <= j < item_views(items@[n - 1], n == 1, *self.theme).len(),
        ensures
            ({
                let from = self.visual_items(items, state, (n - 1) as nat).lines.len();
                let after = self.visual_items(items, state, n);
                let line = after.lines[from + j];
                let own = item_views(items@[n - 1], n == 1, *self.theme)[j];
                &&& from + j < after.lines.len()
                &&& line.source == own.source
                &&& line.prefixes == state.prefixes + own.prefixes
            }),
    {
        let before = self.visual_items(items, state, (n - 1) as nat);
        let item = items@[n - 1];
        let lines = item_views(item, n == 1, *self.theme);
        self.law_items_are_shown_below(items, state, (n - 1) as nat);
        before.lemma_pushed_all(lines);
        before.law_lines_are_appended(lines, j);
        let shown = before.pushed_all(lines);
        self.law_children_are_shown_below(item.children, shown, item.children@.len());
        reveal(RenderView::grown_to);
        let after = self.visual_items(items, state, n);
        assert(after.lines[before.lines.len() + j].source == shown.lines[before.lines.len()
            + j].source);
    }

    /// A paragraph shows its lines in order, and an empty line below them.
    pub proof fn law_paragraphs_are_shown(&self, node: Node, state: RenderView, j: int)
        requires
            node.kind is Paragraph,
            0 <= j < split_inline(inline_view(node.kind->Paragraph_0@)).len(),
        ensures
            ({
                let after = self.visual_node(node, state);
                let lines = split_inline(inline_view(node.kind->Paragraph_0@));
                let from = state.lines.len() as int;
                &&& after.lines.len() == from + lines.len() + 1
                &&& after.lines[from + j].source is Text
                &&& after.lines[from + j].source->Text_0.spans == lines[j]
                &&& after.lines.last().source is Newline
            }),
    {
        let s = state.begun();
        let views = text_views(inline_view(node.kind->Paragraph_0@));
        s.law_lines_are_appended(views, j);
        let shown = s.pushed_all(views);
        shown.lemma_pushed(LogicalView::holding(SourceView::Newline));
        reveal(RenderView::grown_to);
        assert(shown.spaced().lines[state.lines.len() + j].source == shown.lines[state.lines.len()
            + j].source);
    }

    /// A heading shows its text behind its marker; the two highest levels stand above a
    /// rule.
    pub proof fn law_headings_are_shown(&self, node: Node, state: RenderView)
        requires
            node.kind is Heading,
        ensures
            ({
                let after = self.visual_node(node, state);
                let level = node.kind->Heading_level;
                let from = state.lines.len() as int;
                &&& after.lines.len() == from + (if level <= 2 {
                    2int
                } else {
                    1
                })
                &&& after.lines[from].source is Heading
                &&& after.lines[from].source->Heading_level == level
                &&& after.lines[from].source->Heading_text.spans == heading_pieces(
                    inline_view(node.kind->Heading_text@),
                    level,
                )
                &&& level <= 2 ==> after.lines[from + 1].source is ThematicBreak
                &&& after.snap.title_line == Some(from as usize)
            }),
    {
    }
}

} // verus!
