//! What shows a document's source keeps it.

use vstd::prelude::*;

use crate::highlight::lemma_newline_at;
use crate::text::{lemma_newline_is, newline_at, text_lines, without_return};
use crate::tui::markdown::ast::Node;
use crate::tui::markdown::line::{LogicalView, SourceView};
use crate::tui::markdown::markup::{blank_lines, count_of, nested_codes, source_views};
use crate::tui::markdown::render::{MarkdownRenderer, RenderView};

verus! {

/// The texts of some lines.
pub open spec fn line_contents(lines: Seq<LogicalView>) -> Seq<Seq<char>> {
    lines.map_values(|line: LogicalView| line.content_text())
}

/// A text of nothing but line endings.
pub open spec fn only_endings(s: Seq<char>) -> bool
    decreases s.len(),
{
    if s.len() == 0 {
        true
    } else if s[0] == '\n' {
        only_endings(s.drop_first())
    } else {
        s[0] == '\r' && s.len() > 1 && s[1] == '\n' && only_endings(s.skip(2))
    }
}

/// A line starts here.
pub open spec fn starts_line(source: Seq<char>, at: int) -> bool {
    at == 0 || source[at - 1] == '\n'
}

/// A line ends here.
pub open spec fn ends_line(source: Seq<char>, at: int) -> bool {
    ||| at == source.len()
    ||| source[at] == '\n'
    ||| (source[at] == '\r' && at + 1 < source.len() && source[at + 1] == '\n')
}

/// Some empty texts.
pub open spec fn empty_lines(n: nat) -> Seq<Seq<char>> {
    Seq::new(n, |i: int| Seq::<char>::empty())
}

/// Lines of two texts, where the first ends with a newline.
proof fn lemma_lines_add(a: Seq<char>, b: Seq<char>)
    requires
        a.len() == 0 || a.last() == '\n',
    ensures
        text_lines(a + b) == text_lines(a) + text_lines(b),
    decreases a.len(),
{
    if a.len() == 0 {
        assert(a + b =~= b);
        assert(text_lines(a) + text_lines(b) =~= text_lines(b));
    } else {
        let all = a + b;
        let n = newline_at(a);
        lemma_newline_at(a);
        assert(n < a.len());
        assert forall|i: int| 0 <= i < n implies #[trigger] all[i] != '\n' by {
            assert(all[i] == a[i]);
        }
        assert(all[n as int] == a[n as int]);
        lemma_newline_is(all, n);
        let rest = a.skip(n as int + 1);
        assert(all.take(n as int) =~= a.take(n as int));
        assert(all.skip(n as int + 1) =~= rest + b);
        assert(rest.len() > 0 ==> rest.last() == a.last());
        lemma_lines_add(rest, b);
        let head = seq![without_return(a.take(n as int))];
        assert(text_lines(all) =~= head + (text_lines(rest) + text_lines(b)));
        assert(text_lines(a) =~= head + text_lines(rest));
    }
}

/// Ending the last line adds none.
proof fn lemma_ended(a: Seq<char>, ending: Seq<char>)
    requires
        a.len() > 0,
        a.last() != '\n',
        a.last() != '\r',
        ending == seq!['\n'] || ending == seq!['\r', '\n'],
    ensures
        text_lines(a + ending) == text_lines(a),
    decreases a.len(),
{
    let all = a + ending;
    let n = newline_at(a);
    lemma_newline_at(a);
    if n < a.len() {
        assert forall|i: int| 0 <= i < n implies #[trigger] all[i] != '\n' by {
            assert(all[i] == a[i]);
        }
        lemma_newline_is(all, n);
        let rest = a.skip(n as int + 1);
        assert(all.take(n as int) =~= a.take(n as int));
        assert(all.skip(n as int + 1) =~= rest + ending);
        assert(rest.len() > 0) by {
            if rest.len() == 0 {
                assert(a.last() == a[n as int]);
            }
        }
        assert(rest.last() == a.last());
        lemma_ended(rest, ending);
    } else {
        let m = (all.len() - 1) as nat;
        assert forall|i: int| 0 <= i < m implies #[trigger] all[i] != '\n' by {
            if i < a.len() {
                assert(all[i] == a[i]);
            }
        }
        lemma_newline_is(all, m);
        let line = all.take(m as int);
        assert(all.skip(m as int + 1) =~= Seq::empty());
        if ending == seq!['\n'] {
            assert(line =~= a);
        } else {
            assert(line =~= a.push('\r'));
            assert(line.drop_last() =~= a);
        }
        assert(without_return(line) =~= a);
        assert(text_lines(all.skip(m as int + 1)) =~= Seq::empty());
        assert(text_lines(all) =~= seq![a]);
        assert(text_lines(a) =~= seq![a]);
    }
}

proof fn lemma_count_add(a: Seq<char>, b: Seq<char>, c: char)
    ensures
        count_of(a + b, c) == count_of(a, c) + count_of(b, c),
    decreases b.len(),
{
    if b.len() == 0 {
        assert(a + b =~= a);
    } else {
        lemma_count_add(a, b.drop_last(), c);
        assert((a + b).drop_last() =~= a + b.drop_last());
        assert((a + b).last() == b.last());
    }
}

/// The first ending of a text of endings.
spec fn first_ending(s: Seq<char>) -> Seq<char> {
    if s[0] == '\n' {
        seq!['\n']
    } else {
        seq!['\r', '\n']
    }
}

proof fn lemma_first_ending(s: Seq<char>)
    requires
        only_endings(s),
        s.len() > 0,
    ensures
        s == first_ending(s) + s.skip(first_ending(s).len() as int),
        only_endings(s.skip(first_ending(s).len() as int)),
        count_of(s, '\n') == 1 + count_of(s.skip(first_ending(s).len() as int), '\n'),
{
    let head = first_ending(s);
    let rest = s.skip(head.len() as int);
    assert(s =~= head + rest);
    lemma_count_add(head, rest, '\n');
    if s[0] == '\n' {
        assert(s.drop_first() =~= rest);
        assert(head.drop_last() =~= Seq::empty());
        assert(count_of(head.drop_last(), '\n') == 0);
        assert(count_of(head, '\n') == 1);
    } else {
        assert(head.drop_last() =~= seq!['\r']);
        assert(head.drop_last().drop_last() =~= Seq::empty());
        assert(count_of(head.drop_last().drop_last(), '\n') == 0);
        assert(count_of(head.drop_last(), '\n') == 0);
        assert(count_of(head, '\n') == 1);
    }
}

/// A text of endings has as many empty lines as newlines.
proof fn lemma_endings(s: Seq<char>)
    requires
        only_endings(s),
    ensures
        text_lines(s) == empty_lines(count_of(s, '\n')),
    decreases s.len(),
{
    if s.len() == 0 {
        assert(text_lines(s) =~= empty_lines(0));
    } else {
        lemma_first_ending(s);
        let head = first_ending(s);
        let rest = s.skip(head.len() as int);
        lemma_endings(rest);
        lemma_lines_add(head, rest);
        let n = (head.len() - 1) as nat;
        lemma_newline_is(head, n);
        assert(head.skip(n as int + 1) =~= Seq::empty());
        assert(without_return(head.take(n as int)) =~= Seq::empty());
        assert(text_lines(head.skip(n as int + 1)) =~= Seq::empty());
        assert(text_lines(head) =~= seq![Seq::<char>::empty()]);
        assert(text_lines(s) =~= empty_lines(count_of(s, '\n')));
    }
}

/// A gap behind a text gives the text's lines and the empty lines between.
proof fn lemma_gap(a: Seq<char>, gap: Seq<char>)
    requires
        only_endings(gap),
        a.len() == 0 || a.last() == '\n' || a.last() != '\r',
    ensures
        text_lines(a + gap) == text_lines(a) + empty_lines(
            if a.len() == 0 || a.last() == '\n' || count_of(gap, '\n') == 0 {
                count_of(gap, '\n')
            } else {
                (count_of(gap, '\n') - 1) as nat
            },
        ),
{
    lemma_endings(gap);
    if a.len() == 0 || a.last() == '\n' {
        lemma_lines_add(a, gap);
    } else if gap.len() == 0 {
        assert(a + gap =~= a);
        assert(text_lines(a) + empty_lines(0) =~= text_lines(a));
    } else {
        lemma_first_ending(gap);
        let head = first_ending(gap);
        let rest = gap.skip(head.len() as int);
        lemma_ended(a, head);
        assert((a + head).last() == '\n');
        lemma_lines_add(a + head, rest);
        assert((a + head) + rest =~= a + gap);
        lemma_endings(rest);
    }
}

proof fn lemma_contents_add(state: RenderView, lines: Seq<LogicalView>)
    ensures
        line_contents(state.pushed_all_bare(lines).lines) == line_contents(state.lines)
            + line_contents(lines),
    decreases lines.len(),
{
    if lines.len() == 0 {
        assert(line_contents(state.lines) + line_contents(lines) =~= line_contents(state.lines));
    } else {
        lemma_contents_add(state, lines.drop_last());
        let before = state.pushed_all_bare(lines.drop_last());
        let last = LogicalView { node_idx: Some(before.node_idx), ..lines.last() };
        assert(last.content_text() == lines.last().content_text());
        assert(line_contents(before.lines.push(last)) =~= line_contents(before.lines).push(
            last.content_text(),
        ));
        assert(line_contents(lines) =~= line_contents(lines.drop_last()).push(
            lines.last().content_text(),
        ));
        assert(line_contents(state.lines) + line_contents(lines) =~= (line_contents(state.lines)
            + line_contents(lines.drop_last())).push(lines.last().content_text()));
    }
}

impl<'a> MarkdownRenderer<'a> {
    /// A block without code, on lines of its own, behind nothing but empty lines.
    pub open spec fn in_place(&self, nodes: Seq<Node>, i: int) -> bool {
        let source = self.source@;
        let cursor = self.source_cursor(nodes, i as nat);
        let node = nodes[i];
        &&& !(node.kind is Code)
        &&& nested_codes(node, 0).len() == 0
        &&& cursor <= node.start <= node.end <= source.len()
        &&& only_endings(source.subrange(cursor, node.start as int))
        &&& starts_line(source, node.start as int)
        &&& starts_line(source, node.end as int) || (ends_line(source, node.end as int) && source[node.end
            - 1] != '\r')
    }

    /// The blocks of a document without code cover all of its text.
    pub open spec fn covers(&self, nodes: Seq<Node>) -> bool {
        let source = self.source@;
        let cursor = self.source_cursor(nodes, nodes.len());
        &&& forall|i: int| 0 <= i < nodes.len() ==> #[trigger] self.in_place(nodes, i)
        &&& cursor <= source.len()
        &&& only_endings(source.subrange(cursor, source.len() as int))
    }

    proof fn lemma_source_so_far(&self, nodes: Seq<Node>, n: nat)
        requires
            self.covers(nodes),
            n <= nodes.len(),
        ensures
            ({
                let state = self.markup_nodes(nodes, RenderView::start(), n);
                let cursor = self.source_cursor(nodes, n);
                &&& 0 <= cursor <= self.source@.len()
                &&& state.quote_depth == 0
                &&& cursor == 0 || self.source@[cursor - 1] == '\n' || self.source@[cursor - 1] != '\r'
                &&& line_contents(state.lines) == text_lines(self.source@.take(cursor))
            }),
        decreases n,
    {
        let source = self.source@;
        if n == 0 {
            assert(source.take(0) =~= Seq::empty());
            assert(line_contents(RenderView::start().lines) =~= text_lines(source.take(0)));
        } else {
            self.lemma_source_so_far(nodes, (n - 1) as nat);
            assert(self.in_place(nodes, n - 1));
            let node = nodes[n - 1];
            let before = self.markup_nodes(nodes, RenderView::start(), (n - 1) as nat);
            let cursor = self.source_cursor(nodes, (n - 1) as nat);
            let gap = source.subrange(cursor, node.start as int);
            let text = source.subrange(node.start as int, node.end as int);
            self.lemma_gap_lines(before, cursor, node.start as int);
            let behind = before.with_gap(source, cursor, node.start as int);
            let s = behind.begun();
            lemma_blank_state(before, cursor, node.start as int, source);
            let codes = nested_codes(node, 0);
            assert(codes =~= Seq::empty());
            assert(self.markup_codes(s, codes, node.start as int, 0) == s);
            lemma_contents_add(s, source_views(text));
            lemma_source_contents(text);
            let done = source.take(node.start as int);
            assert(done + text =~= source.take(node.end as int));
            assert(done.len() > 0 ==> done.last() == source[node.start - 1]);
            lemma_lines_add(done, text);
            self.law_markup_leaves_no_trace(node, behind);
        }
    }

    proof fn lemma_gap_lines(&self, state: RenderView, from: int, to: int)
        requires
            0 <= from <= to <= self.source@.len(),
            only_endings(self.source@.subrange(from, to)),
            from == 0 || self.source@[from - 1] == '\n' || self.source@[from - 1] != '\r',
            line_contents(state.lines) == text_lines(self.source@.take(from)),
        ensures
            line_contents(state.with_gap(self.source@, from, to).lines) == text_lines(
                self.source@.take(to),
            ),
    {
        let source = self.source@;
        let n = blank_lines(source, from, to);
        let blanks = Seq::new(n, |i: int| LogicalView::holding(SourceView::Newline));
        lemma_contents_add(state, blanks);
        assert(line_contents(blanks) =~= empty_lines(n));
        let done = source.take(from);
        let gap = source.subrange(from, to);
        assert(done.len() > 0 ==> done.last() == source[from - 1]);
        lemma_gap(done, gap);
        assert(done + gap =~= source.take(to));
    }

    /// Without code, a document shown as its source has the lines of the source,
    /// where its blocks cover all text and nothing but empty lines lies between
    /// them.
    pub proof fn law_markup_keeps_source(&self, nodes: Seq<Node>)
        requires
            self.covers(nodes),
        ensures
            line_contents(self.markup_document(nodes, RenderView::start()).lines) == text_lines(
                self.source@,
            ),
    {
        self.lemma_source_so_far(nodes, nodes.len());
        let cursor = self.source_cursor(nodes, nodes.len());
        self.lemma_gap_lines(
            self.markup_nodes(nodes, RenderView::start(), nodes.len()),
            cursor,
            self.source@.len() as int,
        );
        assert(self.source@.take(self.source@.len() as int) =~= self.source@);
    }
}

proof fn lemma_source_contents(text: Seq<char>)
    ensures
        line_contents(source_views(text)) == text_lines(text),
{
    let views = source_views(text);
    assert forall|i: int| 0 <= i < views.len() implies #[trigger] views[i].content_text()
        == text_lines(text)[i] by {}
    assert(line_contents(views) =~= text_lines(text));
}

proof fn lemma_blank_state(state: RenderView, from: int, to: int, source: Seq<char>)
    ensures
        state.with_gap(source, from, to).quote_depth == state.quote_depth,
{
    let blanks = Seq::new(
        blank_lines(source, from, to),
        |i: int| LogicalView::holding(SourceView::Newline),
    );
    crate::tui::markdown::markup::lemma_bare_keeps(state, blanks);
}

} // verus!
