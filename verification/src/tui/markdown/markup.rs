//! Blocks as their source shows them.

use vstd::prelude::*;

use crate::code::{has_block, Code, CodeId};
use crate::num::larger;
use crate::style::{copy_spans, line_view, plain, Span, Style};
use crate::text::{chars_of, lines_of, string_of, strings_view, text_lines};
use crate::tui::markdown::ast::{ListItem, Node, NodeKind};
use crate::tui::markdown::line::{
    lines_wf, logical_views, LogicalLine, LogicalView, SourceView,
};
use crate::tui::markdown::render::{
    next_number, MarkdownRenderer, RenderState, RenderView, SnapContext,
};

verus! {

/// A code block in the source, with the depth of the block quotes around it.
#[derive(Clone, Copy, Debug, PartialEq, Eq, Structural)]
pub struct CodePlace {
    pub id: CodeId,
    pub start: usize,
    pub end: usize,
    pub quote_depth: usize,
}

/// The code blocks in a block.
pub open spec fn codes_in(node: Node, depth: usize) -> Seq<CodePlace>
    decreases node, 0nat,
{
    match node.kind {
        NodeKind::Code(id) => seq![
            CodePlace { id, start: node.start, end: node.end, quote_depth: depth },
        ],
        NodeKind::BlockQuote(children) => codes_among(
            children,
            next_number(depth),
            children@.len(),
        ),
        NodeKind::List(items) => codes_in_items(items, depth, items@.len()),
        _ => Seq::empty(),
    }
}

/// The code blocks in the first `n` blocks.
pub open spec fn codes_among(nodes: Vec<Node>, depth: usize, n: nat) -> Seq<CodePlace>
    decreases nodes, n,
{
    if n == 0 || n > nodes@.len() {
        Seq::empty()
    } else {
        codes_among(nodes, depth, (n - 1) as nat) + codes_in(nodes@[n - 1], depth)
    }
}

/// The code blocks in the first `n` items of a list.
pub open spec fn codes_in_items(items: Vec<ListItem>, depth: usize, n: nat) -> Seq<CodePlace>
    decreases items, n,
{
    if n == 0 || n > items@.len() {
        Seq::empty()
    } else {
        codes_in_items(items, depth, (n - 1) as nat) + codes_among(
            items@[n - 1].children,
            depth,
            items@[n - 1].children@.len(),
        )
    }
}

/// Collects the code blocks in a block.
pub fn collect_node(node: &Node, depth: usize, codes: &mut Vec<CodePlace>)
    ensures
        final(codes)@ == old(codes)@ + codes_in(*node, depth),
    decreases *node, 0nat,
{
    match &node.kind {
        NodeKind::Code(id) => {
            let place = CodePlace {
                id: *id,
                start: node.start,
                end: node.end,
                quote_depth: depth,
            };
            codes.push(place);
            assert(codes@ =~= old(codes)@ + seq![place]);
        },
        NodeKind::BlockQuote(children) => {
            collect_codes(children, depth.saturating_add(1), codes);
        },
        NodeKind::List(items) => collect_items(items, depth, codes),
        _ => {
            assert(codes@ =~= old(codes)@ + codes_in(*node, depth));
        },
    }
}

/// Collects the code blocks in some blocks.
pub fn collect_codes(nodes: &Vec<Node>, depth: usize, codes: &mut Vec<CodePlace>)
    ensures
        final(codes)@ == old(codes)@ + codes_among(*nodes, depth, nodes@.len()),
    decreases *nodes, nodes@.len(),
{
    let ghost before = codes@;
    let mut i: usize = 0;
    assert(codes@ =~= before + codes_among(*nodes, depth, 0));
    while i < nodes.len()
        invariant
            i <= nodes@.len(),
            codes@ == before + codes_among(*nodes, depth, i as nat),
        decreases nodes@.len() - i,
    {
        assert(decreases_to!(*nodes => nodes@[i as int]));
        collect_node(&nodes[i], depth, codes);
        assert(codes@ =~= before + codes_among(*nodes, depth, (i + 1) as nat));
        i += 1;
    }
}

fn collect_items(items: &Vec<ListItem>, depth: usize, codes: &mut Vec<CodePlace>)
    ensures
        final(codes)@ == old(codes)@ + codes_in_items(*items, depth, items@.len()),
    decreases *items, items@.len(),
{
    let ghost before = codes@;
    let mut i: usize = 0;
    assert(codes@ =~= before + codes_in_items(*items, depth, 0));
    while i < items.len()
        invariant
            i <= items@.len(),
            codes@ == before + codes_in_items(*items, depth, i as nat),
        decreases items@.len() - i,
    {
        assert(decreases_to!(*items => items@[i as int]));
        collect_codes(&items[i].children, depth, codes);
        assert(codes@ =~= before + codes_in_items(*items, depth, (i + 1) as nat));
        i += 1;
    }
}

/// How often a character occurs.
pub open spec fn count_of(s: Seq<char>, c: char) -> nat
    decreases s.len(),
{
    if s.len() == 0 {
        0
    } else {
        count_of(s.drop_last(), c) + if s.last() == c {
            1nat
        } else {
            0nat
        }
    }
}

/// The start of the line that a part of the source ends in, not before the part
/// itself.
pub open spec fn line_start(source: Seq<char>, start: int, end: int) -> int
    decreases end - start,
{
    if start >= end || source[end - 1] == '\n' {
        end
    } else {
        line_start(source, start, end - 1)
    }
}

/// White space of ASCII.
pub open spec fn ascii_blank(c: char) -> bool {
    c == ' ' || c == '\t' || c == '\n' || c == '\u{c}' || c == '\r'
}

/// A text of nothing but the markers of so many block quotes.
pub open spec fn only_markers(s: Seq<char>, depth: int) -> bool {
    &&& count_of(s, '>') == depth
    &&& forall|i: int| 0 <= i < s.len() ==> (#[trigger] s[i]) == '>' || ascii_blank(s[i])
}

/// Where the markers of block quotes in front of a code block start.
pub open spec fn prefix_start(source: Seq<char>, start: int, end: int, depth: int) -> int {
    let from = line_start(source, start, end);
    if only_markers(source.subrange(from, end), depth) {
        from
    } else {
        end
    }
}

/// Behind the line ending at a place, if there is one.
pub open spec fn after_ending(source: Seq<char>, at: int) -> int {
    if at + 1 < source.len() && source[at] == '\r' && source[at + 1] == '\n' {
        at + 2
    } else if at < source.len() && source[at] == '\n' {
        at + 1
    } else {
        at
    }
}

/// The code blocks follow each other in the source.
pub open spec fn codes_follow(source: Seq<char>, cursor: int, codes: Seq<CodePlace>) -> bool
    decreases codes.len(),
{
    codes.len() > 0 ==> {
        let code = codes[0];
        &&& cursor <= code.start <= source.len()
        &&& codes_follow(
            source,
            after_ending(source, larger(cursor, code.end as int)),
            codes.drop_first(),
        )
    }
}

/// The source lines of a part of the source.
pub open spec fn source_views(text: Seq<char>) -> Seq<LogicalView> {
    let lines = text_lines(text);
    Seq::new(lines.len(), |i: int| LogicalView::of_markup(lines[i], i == 0))
}

/// How many empty lines stand between two blocks.
pub open spec fn blank_lines(source: Seq<char>, from: int, to: int) -> nat {
    let newlines = count_of(source.subrange(from, to), '\n');
    if from == 0 || source[from - 1] == '\n' || newlines == 0 {
        newlines
    } else {
        (newlines - 1) as nat
    }
}

impl RenderView {
    /// Appends some lines as they are.
    pub open spec fn pushed_all_bare(self, lines: Seq<LogicalView>) -> RenderView
        decreases lines.len(),
    {
        if lines.len() == 0 {
            self
        } else {
            self.pushed_all_bare(lines.drop_last()).pushed_bare(lines.last())
        }
    }

    /// Appends a part of the source, where there is such a part.
    pub open spec fn with_source(self, source: Seq<char>, from: int, to: int) -> RenderView {
        if from <= to <= source.len() {
            self.pushed_all_bare(source_views(source.subrange(from, to)))
        } else {
            self
        }
    }

    /// Appends some empty lines.
    pub open spec fn with_blanks(self, n: nat) -> RenderView {
        self.pushed_all_bare(
            Seq::new(n, |i: int| LogicalView::holding(SourceView::Newline)),
        )
    }

    /// Appends the empty lines between two blocks.
    pub open spec fn with_gap(self, source: Seq<char>, from: int, to: int) -> RenderView {
        if from <= to <= source.len() {
            self.with_blanks(blank_lines(source, from, to))
        } else {
            self
        }
    }

    /// Without an empty line that belongs to a code block at the end.
    pub open spec fn closed(self, id: CodeId) -> RenderView {
        if self.lines.len() > 0 && self.lines.last().code_id == Some(id)
            && self.lines.last().source is Newline {
            RenderView { lines: self.lines.drop_last(), ..self }
        } else {
            self
        }
    }
}

impl<'a> MarkdownRenderer<'a> {
    /// What stands in front of a code block.
    pub open spec fn code_prefixes(&self, from: int, to: int) -> Seq<(Seq<char>, Style)> {
        if from < to {
            seq![
                (
                    self.source@.subrange(from, to),
                    plain().fg_spec(self.theme.muted).bg_spec(self.theme.background),
                ),
            ]
        } else {
            Seq::empty()
        }
    }

    /// Appends a code block as a block of its own.
    pub open spec fn markup_code(&self, state: RenderView, id: CodeId) -> RenderView {
        self.with_code(state.begun(), id).closed(id).ended(state.node_idx)
    }

    /// The source up to each of the first `n` code blocks, and the blocks.
    pub open spec fn markup_codes(
        &self,
        state: RenderView,
        codes: Seq<CodePlace>,
        start: int,
        n: nat,
    ) -> RenderView
        decreases n,
    {
        if n == 0 {
            state
        } else {
            let before = self.markup_codes(state, codes, start, (n - 1) as nat);
            let code = codes[n - 1];
            let cursor = self.cursor_behind(codes, start, (n - 1) as nat);
            let raw_end = prefix_start(
                self.source@,
                cursor,
                code.start as int,
                code.quote_depth as int,
            );
            let shown = before.with_source(self.source@, cursor, raw_end);
            let inside = RenderView {
                quote_depth: code.quote_depth,
                prefixes: self.code_prefixes(raw_end, code.start as int),
                ..shown
            };
            RenderView {
                quote_depth: shown.quote_depth,
                prefixes: shown.prefixes,
                ..self.markup_code(inside, code.id)
            }
        }
    }

    /// Where the source goes on behind the first `n` code blocks.
    pub open spec fn cursor_behind(&self, codes: Seq<CodePlace>, start: int, n: nat) -> int
        decreases n,
    {
        if n == 0 {
            start
        } else {
            after_ending(
                self.source@,
                larger(self.cursor_behind(codes, start, (n - 1) as nat), codes[n - 1].end as int),
            )
        }
    }

    /// Appends a part of the source with the code blocks in it.
    pub open spec fn markup_range(
        &self,
        state: RenderView,
        codes: Seq<CodePlace>,
        start: int,
        end: int,
    ) -> RenderView {
        self.markup_codes(state, codes, start, codes.len()).with_source(
            self.source@,
            self.cursor_behind(codes, start, codes.len()),
            end,
        )
    }

    /// Appends a block.
    pub open spec fn markup_node(&self, node: Node, state: RenderView) -> RenderView {
        let s = state.begun();
        let line = s.lines.len() as usize;
        match node.kind {
            NodeKind::Code(id) => self.markup_code(state, id),
            _ => {
                let shown = self.markup_range(
                    s,
                    nested_codes(node, s.quote_depth),
                    node.start as int,
                    node.end as int,
                );
                let snap = match node.kind {
                    NodeKind::Heading { .. } => SnapContext {
                        title_line: Some(line),
                        ..shown.snap
                    },
                    NodeKind::Paragraph(_) => SnapContext {
                        description_line: Some(line),
                        ..shown.snap
                    },
                    _ => shown.snap,
                };
                RenderView { snap, ..shown }.ended(state.node_idx)
            },
        }
    }

    /// Where the source goes on behind the first `n` blocks.
    pub open spec fn source_cursor(&self, nodes: Seq<Node>, n: nat) -> int
        decreases n,
    {
        if n == 0 {
            0
        } else {
            larger(self.source_cursor(nodes, (n - 1) as nat), nodes[n - 1].end as int)
        }
    }

    /// Appends the first `n` blocks, each behind the gap in front of it.
    pub open spec fn markup_nodes(&self, nodes: Seq<Node>, state: RenderView, n: nat) -> RenderView
        decreases n,
    {
        if n == 0 {
            state
        } else {
            let before = self.markup_nodes(nodes, state, (n - 1) as nat);
            let gap = before.with_gap(
                self.source@,
                self.source_cursor(nodes, (n - 1) as nat),
                nodes[n - 1].start as int,
            );
            self.markup_node(nodes[n - 1], gap)
        }
    }

    /// The document as its source shows it.
    pub open spec fn markup_document(&self, nodes: Seq<Node>, state: RenderView) -> RenderView {
        self.markup_nodes(nodes, state, nodes.len()).with_gap(
            self.source@,
            self.source_cursor(nodes, nodes.len()),
            self.source@.len() as int,
        )
    }
}

/// The code blocks nested in a block.
pub open spec fn nested_codes(node: Node, depth: usize) -> Seq<CodePlace> {
    match node.kind {
        NodeKind::Code(_) => Seq::empty(),
        _ => codes_in(node, depth),
    }
}

/// The block's code blocks are known and follow each other in the source.
pub open spec fn markup_ok(node: Node, depth: usize, codes: Seq<Code>, source: Seq<char>) -> bool {
    match node.kind {
        NodeKind::Code(id) => has_block(codes, id),
        _ => {
            let nested = nested_codes(node, depth);
            &&& codes_follow(source, node.start as int, nested)
            &&& forall|i: int|
                0 <= i < nested.len() ==> has_block(codes, (#[trigger] nested[i]).id)
        },
    }
}

fn count_newlines(chars: &Vec<char>, from: usize, to: usize) -> (n: usize)
    requires
        from <= to <= chars@.len(),
    ensures
        n == count_of(chars@.subrange(from as int, to as int), '\n'),
{
    let mut n: usize = 0;
    let mut i: usize = from;
    assert(chars@.subrange(from as int, from as int) =~= Seq::empty());
    while i < to
        invariant
            from <= i <= to <= chars@.len(),
            n == count_of(chars@.subrange(from as int, i as int), '\n'),
            n <= i - from,
        decreases to - i,
    {
        proof {
            let part = chars@.subrange(from as int, i + 1);
            assert(part.drop_last() =~= chars@.subrange(from as int, i as int));
            assert(part.last() == chars@[i as int]);
        }
        if chars[i] == '\n' {
            n += 1;
        }
        i += 1;
    }
    n
}

fn is_only_markers(chars: &Vec<char>, from: usize, to: usize, depth: usize) -> (yes: bool)
    requires
        from <= to <= chars@.len(),
    ensures
        yes == only_markers(chars@.subrange(from as int, to as int), depth as int),
{
    let ghost part = chars@.subrange(from as int, to as int);
    let mut markers: usize = 0;
    let mut i: usize = from;
    assert(part.take(0) =~= Seq::empty());
    while i < to
        invariant
            from <= i <= to <= chars@.len(),
            part == chars@.subrange(from as int, to as int),
            markers == count_of(part.take(i - from), '>'),
            markers <= i - from,
            forall|k: int| 0 <= k < i - from ==> (#[trigger] part[k]) == '>' || ascii_blank(part[k]),
        decreases to - i,
    {
        proof {
            assert(part.take(i - from + 1).drop_last() =~= part.take(i - from));
            assert(part[i - from] == chars@[i as int]);
        }
        let c = chars[i];
        if c == '>' {
            markers += 1;
        } else if !(c == ' ' || c == '\t' || c == '\n' || c == '\u{c}' || c == '\r') {
            assert(!(part[i - from] == '>' || ascii_blank(part[i - from])));
            return false;
        }
        i += 1;
    }
    assert(part.take(i - from) =~= part);
    markers == depth
}

/// Where the markers of block quotes in front of a code block start.
fn code_prefix_start(chars: &Vec<char>, start: usize, end: usize, depth: usize) -> (at: usize)
    requires
        start <= end <= chars@.len(),
    ensures
        at == prefix_start(chars@, start as int, end as int, depth as int),
        start <= at <= end,
{
    let mut from: usize = end;
    while from > start && chars[from - 1] != '\n'
        invariant
            start <= from <= end <= chars@.len(),
            line_start(chars@, start as int, end as int) == line_start(
                chars@,
                start as int,
                from as int,
            ),
        decreases from,
    {
        from -= 1;
    }
    if is_only_markers(chars, from, end, depth) {
        from
    } else {
        end
    }
}

/// Behind the line ending at a place, if there is one.
pub fn after_line_ending(chars: &Vec<char>, at: usize) -> (behind: usize)
    ensures
        behind == after_ending(chars@, at as int),
{
    let n: usize = chars.len();
    if at >= n {
        at
    } else if chars[at] == '\r' && n - at > 1 && chars[at + 1] == '\n' {
        at + 2
    } else if chars[at] == '\n' {
        at + 1
    } else {
        at
    }
}

impl RenderState {
    fn push_source(&mut self, chars: &Vec<char>, from: usize, to: usize)
        requires
            lines_wf(old(self).lines@),
        ensures
            final(self)@ == old(self)@.with_source(chars@, from as int, to as int),
            lines_wf(final(self).lines@),
    {
        if from > to || to > chars.len() {
            return ;
        }
        let text = string_of(vstd::slice::slice_subrange(chars.as_slice(), from, to));
        let mut texts = lines_of(text.as_str());
        let ghost view = strings_view(texts@);
        let ghost all = source_views(text@);
        let ghost before = self@;
        let n: usize = texts.len();
        let mut i: usize = 0;
        assert(all.take(0) =~= Seq::empty());
        while i < n
            invariant
                i <= n,
                n == all.len(),
                n == texts@.len(),
                view == strings_view(texts@),
                view == text_lines(text@),
                all == source_views(text@),
                self@ == before.pushed_all_bare(all.take(i as int)),
                lines_wf(self.lines@),
            decreases n - i,
        {
            let line = LogicalLine::markup_text(texts[i].clone(), i == 0);
            proof {
                assert(view[i as int] == texts@[i as int]@);
                assert(all[i as int] == line@);
                assert(all.take(i + 1).drop_last() =~= all.take(i as int));
                assert(all.take(i + 1).last() == all[i as int]);
            }
            self.push_unquoted_line(line);
            i += 1;
        }
        assert(all.take(i as int) =~= all);
    }

    fn push_gap(&mut self, chars: &Vec<char>, from: usize, to: usize)
        requires
            lines_wf(old(self).lines@),
        ensures
            final(self)@ == old(self)@.with_gap(chars@, from as int, to as int),
            lines_wf(final(self).lines@),
    {
        if from > to || to > chars.len() {
            return ;
        }
        let newlines = count_newlines(chars, from, to);
        let n: usize = if from == 0 || chars[from - 1] == '\n' {
            newlines
        } else {
            newlines.saturating_sub(1)
        };
        let ghost all = Seq::new(n as nat, |i: int| LogicalView::holding(SourceView::Newline));
        let ghost before = self@;
        let mut i: usize = 0;
        assert(all.take(0) =~= Seq::empty());
        while i < n
            invariant
                i <= n,
                all == Seq::new(n as nat, |i: int| LogicalView::holding(SourceView::Newline)),
                self@ == before.pushed_all_bare(all.take(i as int)),
                lines_wf(self.lines@),
            decreases n - i,
        {
            proof {
                assert(all.take(i + 1).drop_last() =~= all.take(i as int));
                assert(all.take(i + 1).last() == all[i as int]);
            }
            self.push_unquoted_line(LogicalLine::newline());
            i += 1;
        }
        assert(all.take(i as int) =~= all);
    }

    fn close_code(&mut self, id: CodeId)
        requires
            lines_wf(old(self).lines@),
        ensures
            final(self)@ == old(self)@.closed(id),
            lines_wf(final(self).lines@),
    {
        let n: usize = self.lines.len();
        assert(logical_views(self.lines@).len() == n);
        if n > 0 {
            assert(logical_views(self.lines@).last() == self.lines@[n - 1]@);
            if self.lines[n - 1].code_id == Some(id) && self.lines[n - 1].is_newline() {
                let ghost before = self.lines@;
                self.lines.pop();
                assert(logical_views(self.lines@) =~= logical_views(before).drop_last());
            }
        }
    }
}

impl<'a> MarkdownRenderer<'a> {
    fn markup_code_prefix(&self, content: String) -> (span: Span)
        ensures
            span@ == (
                content@,
                plain().fg_spec(self.theme.muted).bg_spec(self.theme.background),
            ),
    {
        Span::styled(content, Style::default().fg(self.theme.muted).bg(self.theme.background))
    }

    fn render_markup_code(&self, id: CodeId, state: &mut RenderState)
        requires
            lines_wf(old(state).lines@),
            has_block(self.codes@, id),
        ensures
            final(state)@ == self.markup_code(old(state)@, id),
            lines_wf(final(state).lines@),
    {
        let parent = state.begin_node();
        self.render_code(id, state);
        state.close_code(id);
        state.end_node(parent);
    }

    fn render_markup_code_ranges(
        &self,
        chars: &Vec<char>,
        codes: &Vec<CodePlace>,
        start: usize,
        end: usize,
        state: &mut RenderState,
    )
        requires
            lines_wf(old(state).lines@),
            chars@ == self.source@,
            codes_follow(self.source@, start as int, codes@),
            forall|i: int|
                0 <= i < codes@.len() ==> has_block(self.codes@, (#[trigger] codes@[i]).id),
        ensures
            final(state)@ == self.markup_range(old(state)@, codes@, start as int, end as int),
            lines_wf(final(state).lines@),
    {
        let ghost before = state@;
        let mut cursor: usize = start;
        let mut i: usize = 0;
        assert(codes@.skip(0) =~= codes@);
        while i < codes.len()
            invariant
                i <= codes@.len(),
                chars@ == self.source@,
                forall|i: int|
                    0 <= i < codes@.len() ==> has_block(self.codes@, (#[trigger] codes@[i]).id),
                codes_follow(self.source@, cursor as int, codes@.skip(i as int)),
                cursor == self.cursor_behind(codes@, start as int, i as nat),
                state@ == self.markup_codes(before, codes@, start as int, i as nat),
                lines_wf(state.lines@),
            decreases codes@.len() - i,
        {
            let code = codes[i];
            assert(codes@.skip(i as int)[0] == code);
            assert(codes@.skip(i as int).drop_first() =~= codes@.skip(i + 1));
            let raw_end = code_prefix_start(chars, cursor, code.start, code.quote_depth);
            state.push_source(chars, cursor, raw_end);
            let depth = state.quote_depth;
            let prefixes = copy_spans(&state.prefixes);
            state.quote_depth = code.quote_depth;
            let mut inside: Vec<Span> = Vec::new();
            if raw_end < code.start {
                let text = string_of(
                    vstd::slice::slice_subrange(chars.as_slice(), raw_end, code.start),
                );
                inside.push(self.markup_code_prefix(text));
            }
            assert(line_view(inside@) =~= self.code_prefixes(raw_end as int, code.start as int));
            state.prefixes = inside;
            self.render_markup_code(code.id, state);
            state.prefixes = prefixes;
            state.quote_depth = depth;
            cursor = after_line_ending(chars, cursor.max(code.end));
            i += 1;
        }
        state.push_source(chars, cursor, end);
    }

    fn render_markup_node(&self, chars: &Vec<char>, node: &Node, state: &mut RenderState)
        requires
            lines_wf(old(state).lines@),
            chars@ == self.source@,
            markup_ok(*node, old(state)@.quote_depth, self.codes@, self.source@),
        ensures
            final(state)@ == self.markup_node(*node, old(state)@),
            lines_wf(final(state).lines@),
    {
        if let NodeKind::Code(id) = &node.kind {
            self.render_markup_code(*id, state);
            return ;
        }
        let parent = state.begin_node();
        let line: usize = state.lines.len();
        let mut codes: Vec<CodePlace> = Vec::new();
        collect_node(node, state.quote_depth, &mut codes);
        assert(codes@ =~= nested_codes(*node, old(state)@.quote_depth));
        self.render_markup_code_ranges(chars, &codes, node.start, node.end, state);
        match &node.kind {
            NodeKind::Heading { .. } => {
                state.snap.title_line = Some(line);
            },
            NodeKind::Paragraph(_) => {
                state.snap.description_line = Some(line);
            },
            _ => {},
        }
        state.end_node(parent);
    }

    /// Appends blocks as their source shows them, with the empty lines between
    /// them.
    pub fn render_markup(&self, nodes: &Vec<Node>, state: &mut RenderState)
        requires
            lines_wf(old(state).lines@),
            forall|i: int|
                0 <= i < nodes@.len() ==> markup_ok(
                    #[trigger] nodes@[i],
                    old(state)@.quote_depth,
                    self.codes@,
                    self.source@,
                ),
        ensures
            final(state)@ == self.markup_document(nodes@, old(state)@),
            lines_wf(final(state).lines@),
    {
        let chars = chars_of(self.source);
        let ghost before = state@;
        let mut cursor: usize = 0;
        let mut i: usize = 0;
        while i < nodes.len()
            invariant
                i <= nodes@.len(),
                chars@ == self.source@,
                forall|i: int|
                    0 <= i < nodes@.len() ==> markup_ok(
                    #[trigger] nodes@[i],
                    before.quote_depth,
                    self.codes@,
                    self.source@,
                ),
                cursor == self.source_cursor(nodes@, i as nat),
                state@ == self.markup_nodes(nodes@, before, i as nat),
                state@.quote_depth == before.quote_depth,
                lines_wf(state.lines@),
            decreases nodes@.len() - i,
        {
            let node = &nodes[i];
            proof {
                self.lemma_markup_depth(nodes@, before, (i + 1) as nat);
                lemma_bare_keeps(state@, Seq::new(
                    blank_lines(chars@, cursor as int, node.start as int),
                    |i: int| LogicalView::holding(SourceView::Newline),
                ));
            }
            state.push_gap(&chars, cursor, node.start);
            self.render_markup_node(&chars, node, state);
            cursor = cursor.max(node.end);
            i += 1;
        }
        state.push_gap(&chars, cursor, chars.len());
    }
}

/// Appending lines changes nothing but the lines.
pub proof fn lemma_bare_keeps(state: RenderView, lines: Seq<LogicalView>)
    ensures
        state.pushed_all_bare(lines) == (RenderView {
            lines: state.pushed_all_bare(lines).lines,
            ..state
        }),
    decreases lines.len(),
{
    if lines.len() > 0 {
        lemma_bare_keeps(state, lines.drop_last());
    }
}

/// Appending lines changes nothing but the lines.
pub proof fn lemma_pushed_keeps(state: RenderView, lines: Seq<LogicalView>)
    ensures
        state.pushed_all(lines) == (RenderView { lines: state.pushed_all(lines).lines, ..state }),
        state.pushed_all(lines).lines.len() == state.lines.len() + lines.len(),
    decreases lines.len(),
{
    if lines.len() > 0 {
        lemma_pushed_keeps(state, lines.drop_last());
    }
}

impl<'a> MarkdownRenderer<'a> {
    /// A code block leaves nothing behind but its lines, and the line in front of
    /// it as its start.
    pub proof fn law_code_leaves_no_trace(&self, state: RenderView, id: CodeId)
        ensures
            self.with_code(state, id).prefixes == state.prefixes,
            self.with_code(state, id).quote_depth == state.quote_depth,
            self.with_code(state, id).node_idx == state.node_idx,
            self.with_code(state, id).next_node_idx == state.next_node_idx,
            self.with_code(state, id).snap == SnapContext::none(),
            self.with_code(state, id).lines.len() > state.lines.len(),
    {
        let code = crate::code::code_of(self.codes@, id);
        let info = state.snapped(id).noting_overhead(id).pushed(
            self.info_view(code, !state.snaps()),
        );
        lemma_pushed_keeps(info, self.body_views(code));
        lemma_pushed_keeps(info.pushed_all(self.body_views(code)), self.output_views(code));
    }

    proof fn lemma_codes_depth(&self, state: RenderView, codes: Seq<CodePlace>, start: int, n: nat)
        ensures
            self.markup_codes(state, codes, start, n).quote_depth == state.quote_depth,
            self.markup_codes(state, codes, start, n).prefixes == state.prefixes,
        decreases n,
    {
        if n > 0 {
            self.lemma_codes_depth(state, codes, start, (n - 1) as nat);
            let before = self.markup_codes(state, codes, start, (n - 1) as nat);
            let cursor = self.cursor_behind(codes, start, (n - 1) as nat);
            let code = codes[n - 1];
            let raw_end = prefix_start(
                self.source@,
                cursor,
                code.start as int,
                code.quote_depth as int,
            );
            lemma_bare_keeps(before, source_views(self.source@.subrange(cursor, raw_end)));
        }
    }

    /// A block, shown as its source, leaves nothing behind but its lines and its
    /// number.
    pub proof fn law_markup_leaves_no_trace(&self, node: Node, state: RenderView)
        ensures
            self.markup_node(node, state).quote_depth == state.quote_depth,
            self.markup_node(node, state).prefixes == state.prefixes,
            self.markup_node(node, state).node_idx == state.node_idx,
    {
        let s = state.begun();
        match node.kind {
            NodeKind::Code(id) => {
                self.law_code_leaves_no_trace(s, id);
            },
            _ => {
                let codes = nested_codes(node, s.quote_depth);
                self.lemma_codes_depth(s, codes, node.start as int, codes.len());
                let before = self.markup_codes(s, codes, node.start as int, codes.len());
                let cursor = self.cursor_behind(codes, node.start as int, codes.len());
                lemma_bare_keeps(
                    before,
                    source_views(self.source@.subrange(cursor, node.end as int)),
                );
            },
        }
    }

    /// A gap leaves the depth of block quotes as it is.
    pub proof fn lemma_gap_depth(&self, state: RenderView, from: int, to: int)
        ensures
            state.with_gap(self.source@, from, to).quote_depth == state.quote_depth,
    {
        lemma_bare_keeps(
            state,
            Seq::new(
                blank_lines(self.source@, from, to),
                |i: int| LogicalView::holding(SourceView::Newline),
            ),
        );
    }

    /// The depth of block quotes stays as it is.
    pub proof fn lemma_markup_depth(&self, nodes: Seq<Node>, state: RenderView, n: nat)
        ensures
            self.markup_nodes(nodes, state, n).quote_depth == state.quote_depth,
        decreases n,
    {
        if n > 0 {
            self.lemma_markup_depth(nodes, state, (n - 1) as nat);
            let before = self.markup_nodes(nodes, state, (n - 1) as nat);
            let from = self.source_cursor(nodes, (n - 1) as nat);
            let to = nodes[n - 1].start as int;
            lemma_bare_keeps(
                before,
                Seq::new(
                    blank_lines(self.source@, from, to),
                    |i: int| LogicalView::holding(SourceView::Newline),
                ),
            );
            self.law_markup_leaves_no_trace(
                nodes[n - 1],
                before.with_gap(self.source@, from, to),
            );
        }
    }
}

} // verus!
