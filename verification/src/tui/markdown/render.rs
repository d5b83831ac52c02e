//! From blocks to lines.

use std::collections::HashMap;

use vstd::prelude::*;

use crate::code::{code_by_id, code_of, has_block, Code, CodeId, DepsToken};
use crate::config::{ERROR_SYMBOL, SUCCESS_SYMBOL};
use crate::num::{less_by, smaller};
use crate::style::{
    append_spans, copy_spans, line_text, line_view, line_views, plain, text_len, Color, Line,
    LineView, Span, Style,
};
use crate::task::TaskStatus;
use crate::text::{decimal, decimal_text, lines_of, strings_view, text_lines};
use crate::theme::Theme;
use crate::theme_library::Painter;
use crate::tui::markdown::line::{
    lines_wf, logical_views, InfoView, LogicalLine, LogicalView, RenderMode, SourceView, TextView,
};
use crate::tui::tasks::TaskOutput;

verus! {

broadcast use vstd::std_specs::hash::group_hash_axioms;

/// Lines that a following code block is shown with.
#[derive(Clone, Copy, Debug, PartialEq, Eq, Structural)]
pub struct SnapContext {
    /// The heading in front of the next code block.
    pub title_line: Option<usize>,
    /// The first line of the paragraph in front of the next code block.
    pub description_line: Option<usize>,
}

impl SnapContext {
    /// No line.
    pub open spec fn none() -> SnapContext {
        SnapContext { title_line: None, description_line: None }
    }

    /// The heading, or else the paragraph.
    pub open spec fn target(self) -> Option<usize> {
        if self.title_line is Some {
            self.title_line
        } else {
            self.description_line
        }
    }

    /// Takes the heading, or else the paragraph. Both are cleared, so that
    /// adjacent code blocks do not share them.
    pub fn take_target(&mut self) -> (target: Option<usize>)
        ensures
            target == old(self).target(),
            *final(self) == SnapContext::none(),
    {
        let target = if self.title_line.is_some() {
            self.title_line
        } else {
            self.description_line
        };
        self.title_line = None;
        self.description_line = None;
        target
    }
}

/// The lines so far, and what the next ones depend on.
pub struct RenderState {
    pub lines: Vec<LogicalLine>,
    pub snap: SnapContext,
    /// How deep block quotes are nested.
    pub quote_depth: usize,
    /// What stands in front of every line.
    pub prefixes: Vec<Span>,
    /// The characters in front of code blocks.
    pub overhead: HashMap<CodeId, usize>,
    /// The number of the latest block.
    pub next_node_idx: usize,
    /// The number of the current block.
    pub node_idx: usize,
}

/// Contents of the lines so far, and of what the next ones depend on.
pub struct RenderView {
    pub lines: Seq<LogicalView>,
    pub snap: SnapContext,
    pub quote_depth: usize,
    pub prefixes: Seq<(Seq<char>, Style)>,
    pub overhead: Map<CodeId, usize>,
    pub next_node_idx: usize,
    pub node_idx: usize,
}

impl View for RenderState {
    type V = RenderView;

    open spec fn view(&self) -> RenderView {
        RenderView {
            lines: logical_views(self.lines@),
            snap: self.snap,
            quote_depth: self.quote_depth,
            prefixes: line_view(self.prefixes@),
            overhead: self.overhead@,
            next_node_idx: self.next_node_idx,
            node_idx: self.node_idx,
        }
    }
}

/// The number after a number, as far as numbers go.
pub open spec fn next_number(n: usize) -> usize {
    smaller(n + 1, usize::MAX as int) as usize
}

impl RenderView {
    /// Nothing rendered yet.
    pub open spec fn start() -> RenderView {
        RenderView {
            lines: Seq::empty(),
            snap: SnapContext::none(),
            quote_depth: 0,
            prefixes: Seq::empty(),
            overhead: Map::empty(),
            next_node_idx: 0,
            node_idx: 0,
        }
    }

    /// A block begins: it gets the next number.
    pub open spec fn begun(self) -> RenderView {
        RenderView {
            next_node_idx: next_number(self.next_node_idx),
            node_idx: next_number(self.next_node_idx),
            ..self
        }
    }

    /// A block ends in the block around it.
    pub open spec fn ended(self, parent: usize) -> RenderView {
        RenderView { node_idx: parent, ..self }
    }

    /// Appends a line as it is.
    pub open spec fn pushed_bare(self, line: LogicalView) -> RenderView {
        RenderView {
            lines: self.lines.push(LogicalView { node_idx: Some(self.node_idx), ..line }),
            ..self
        }
    }

    /// A line behind what stands in front of every line.
    pub open spec fn behind_prefixes(self, line: LogicalView) -> LogicalView {
        let wrap = match line.wrap_prefixes {
            Some(own) => self.prefixes + own,
            None => self.prefixes,
        };
        LogicalView {
            prefixes: self.prefixes + line.prefixes,
            wrap_prefix_width: line_text(wrap).len() as int,
            wrap_prefixes: if wrap.len() > 0 {
                Some(wrap)
            } else {
                None
            },
            ..line
        }
    }

    /// Appends a line behind what stands in front of every line.
    pub open spec fn pushed(self, line: LogicalView) -> RenderView {
        self.pushed_bare(self.behind_prefixes(line))
    }

    /// Appends some lines behind what stands in front of every line.
    pub open spec fn pushed_all(self, lines: Seq<LogicalView>) -> RenderView
        decreases lines.len(),
    {
        if lines.len() == 0 {
            self
        } else {
            self.pushed_all(lines.drop_last()).pushed(lines.last())
        }
    }

    /// The line that a code block is shown with starts the block.
    pub open spec fn snapped(self, id: CodeId) -> RenderView {
        let target = self.snap.target();
        RenderView {
            snap: SnapContext::none(),
            lines: if target is Some && target->0 < self.lines.len() {
                self.lines.update(
                    target->0 as int,
                    LogicalView {
                        code_id: Some(id),
                        is_code_start: true,
                        is_block_start: true,
                        ..self.lines[target->0 as int]
                    },
                )
            } else {
                self.lines
            },
            ..self
        }
    }

    /// Whether the next code block is shown with a line in front of it.
    pub open spec fn snaps(self) -> bool {
        self.snap.target() is Some && self.snap.target()->0 < self.lines.len()
    }

    /// Notes how much stands in front of a code block.
    pub open spec fn noting_overhead(self, id: CodeId) -> RenderView {
        let width = line_text(self.prefixes).len();
        RenderView {
            overhead: if width > 0 {
                self.overhead.insert(id, width as usize)
            } else {
                self.overhead
            },
            ..self
        }
    }
}

impl RenderState {
    /// Nothing rendered yet.
    pub fn new() -> (state: RenderState)
        ensures
            state@ == RenderView::start(),
            lines_wf(state.lines@),
    {
        let state = RenderState {
            lines: Vec::new(),
            snap: SnapContext { title_line: None, description_line: None },
            quote_depth: 0,
            prefixes: Vec::new(),
            overhead: HashMap::new(),
            next_node_idx: 0,
            node_idx: 0,
        };
        assert(state@.lines =~= Seq::empty());
        assert(state@.prefixes =~= Seq::empty());
        assert(state@.overhead =~= Map::empty());
        state
    }

    /// A block begins; returns the number of the block around it.
    pub fn begin_node(&mut self) -> (parent: usize)
        requires
            lines_wf(old(self).lines@),
        ensures
            parent == old(self)@.node_idx,
            final(self)@ == old(self)@.begun(),
            lines_wf(final(self).lines@),
    {
        let parent = self.node_idx;
        self.next_node_idx = self.next_node_idx.saturating_add(1);
        self.node_idx = self.next_node_idx;
        parent
    }

    /// A block ends.
    pub fn end_node(&mut self, parent: usize)
        requires
            lines_wf(old(self).lines@),
        ensures
            final(self)@ == old(self)@.ended(parent),
            lines_wf(final(self).lines@),
    {
        self.node_idx = parent;
    }

    /// Appends a line as it is.
    pub fn push_unquoted_line(&mut self, line: LogicalLine)
        requires
            lines_wf(old(self).lines@),
            line.source.wf(),
        ensures
            final(self)@ == old(self)@.pushed_bare(line@),
            lines_wf(final(self).lines@),
    {
        let ghost before = logical_views(self.lines@);
        let mut line = line;
        line.node_idx = Some(self.node_idx);
        let ghost shown = line@;
        self.lines.push(line);
        assert(logical_views(self.lines@) =~= before.push(shown));
    }

    /// Appends a line behind what stands in front of every line.
    pub fn push_line(&mut self, line: LogicalLine)
        requires
            lines_wf(old(self).lines@),
            line.source.wf(),
        ensures
            final(self)@ == old(self)@.pushed(line@),
            lines_wf(final(self).lines@),
    {
        let mut wrap = copy_spans(&self.prefixes);
        if let Some(own) = &line.wrap_prefixes {
            append_spans(&mut wrap, own);
        }
        let mut prefixes = copy_spans(&self.prefixes);
        append_spans(&mut prefixes, &line.prefixes);
        let mut line = line;
        line.prefixes = prefixes;
        line.wrap_prefix_width = text_len(&wrap);
        assert(line_view(wrap@).len() == wrap@.len());
        line.wrap_prefixes = if wrap.len() > 0 {
            Some(wrap)
        } else {
            None
        };
        self.push_unquoted_line(line);
    }

    /// Makes the line in front of a code block its start; tells whether there is
    /// one.
    fn snap_to(&mut self, id: CodeId) -> (snapped: bool)
        requires
            lines_wf(old(self).lines@),
        ensures
            final(self)@ == old(self)@.snapped(id),
            snapped == old(self)@.snaps(),
            lines_wf(final(self).lines@),
    {
        match self.snap.take_target() {
            Some(i) => if i < self.lines.len() {
                let ghost before = logical_views(self.lines@);
                let ghost lines = self.lines@;
                let line = &mut self.lines[i];
                line.code_id = Some(id);
                line.is_code_start = true;
                line.is_block_start = true;
                proof {
                    assert(before[i as int] == lines[i as int]@);
                    assert(logical_views(self.lines@) =~= before.update(
                        i as int,
                        LogicalView {
                            code_id: Some(id),
                            is_code_start: true,
                            is_block_start: true,
                            ..before[i as int]
                        },
                    ));
                }
                true
            } else {
                false
            },
            None => false,
        }
    }
}

/// The color of a task's status.
pub open spec fn status_color(theme: Theme, status: TaskStatus) -> Option<Color> {
    match status {
        TaskStatus::Running => Some(theme.warning),
        TaskStatus::Success => Some(theme.success),
        TaskStatus::Error => Some(theme.error),
        TaskStatus::Idle => None,
    }
}

/// A background where there is none.
pub open spec fn filled(style: Style, bg: Color) -> Style {
    if style.bg is None || style.bg == Some(Color::Reset) {
        style.bg_spec(bg)
    } else {
        style
    }
}

/// A line with a background where there is none.
pub open spec fn filled_line(line: LineView, bg: Color) -> LineView {
    LineView {
        spans: line.spans.map_values(|run: (Seq<char>, Style)| (run.0, filled(run.1, bg))),
        style: filled(line.style, bg),
    }
}

fn fill(style: Style, bg: Color) -> (out: Style)
    ensures
        out == filled(style, bg),
{
    match style.bg {
        None => style.bg(bg),
        Some(color) => if color == Color::Reset {
            style.bg(bg)
        } else {
            style
        },
    }
}

fn fill_line(line: &Line, bg: Color) -> (out: Line)
    ensures
        out@ == filled_line(line@, bg),
{
    let ghost whole = filled_line(line@, bg).spans;
    let mut spans: Vec<Span> = Vec::new();
    let mut i: usize = 0;
    assert(line_view(spans@) =~= whole.take(0));
    while i < line.spans.len()
        invariant
            i <= line.spans@.len(),
            whole == filled_line(line@, bg).spans,
            line_view(spans@) == whole.take(i as int),
        decreases line.spans@.len() - i,
    {
        let span = Span::styled(line.spans[i].content.clone(), fill(line.spans[i].style, bg));
        let ghost before = line_view(spans@);
        let ghost shown = span@;
        spans.push(span);
        proof {
            assert(line_view(spans@) =~= before.push(shown));
            assert(line@.spans[i as int] == line.spans@[i as int]@);
            assert(whole.take(i + 1) =~= whole.take(i as int).push(shown));
        }
        i += 1;
    }
    assert(whole.take(i as int) =~= whole);
    Line { spans, style: fill(line.style, bg) }
}

/// The lines of a screen that are shown below a code block: all of a full-screen
/// program, else as many as fit, from the scroll offset up.
pub open spec fn output_window(output: TaskOutput, max_lines: int) -> (int, int) {
    let total = output.lines@.len() as int;
    if output.alternate {
        (0, total)
    } else {
        let offset = less_by(output.task.inline_scroll as int, output.scrollback as int);
        let end = smaller(less_by(output.rows as int, offset), total);
        (less_by(end, max_lines), end)
    }
}

/// However far the output is scrolled, the window stays as full as the screen
/// allows, once the offset was clamped to what there is.
pub proof fn law_window_stays_full(output: TaskOutput, max_lines: usize, max_scrollback: usize)
    requires
        !output.alternate,
        output.lines@.len() == output.rows,
        output.task.inline_scroll <= crate::task::Task::inline_clamp(
            output.task.inline_scroll as int,
            max_lines,
            max_scrollback,
            output.rows as usize,
        ),
        output.scrollback == smaller(output.task.inline_scroll as int, max_scrollback as int),
        max_lines <= output.rows,
    ensures
        ({
            let (start, end) = output_window(output, max_lines as int);
            0 <= start <= end <= output.rows && end - start == max_lines
        }),
{
}

/// Without scrolling, the window ends with the last line of the screen.
pub proof fn law_window_ends_at_bottom(output: TaskOutput, max_lines: usize)
    requires
        !output.alternate,
        output.lines@.len() == output.rows,
        output.task.inline_scroll == 0,
    ensures
        output_window(output, max_lines as int).1 == output.rows,
{
}

/// The start of the line above a code block.
pub open spec fn label_text(code: Code) -> Seq<char> {
    if code.name@.len() == 0 {
        decimal_text(code.id as nat)
    } else {
        decimal_text(code.id as nat) + " "@ + code.name@
    }
}

/// The dependency list in the line above a code block.
pub open spec fn deps_runs(tokens: Seq<DepsToken>, theme: Theme) -> Seq<(Seq<char>, Style)> {
    tokens.map_values(
        |token: DepsToken|
            (
                token.text@,
                if token.punct {
                    theme.code_info().patch_spec(theme.muted_fg())
                } else {
                    theme.code_info()
                },
            ),
    )
}

/// The left side of the line above a code block: number, name, dependencies, and
/// how the block ended.
pub open spec fn info_left(code: Code, theme: Theme, output: Option<TaskOutput>) -> Seq<
    (Seq<char>, Style),
> {
    let style = theme.code_info();
    let deps = match code.deps_tokens {
        Some(tokens) => deps_runs(tokens@, theme),
        None => seq![(" [invalid]"@, style.fg_spec(theme.error))],
    };
    let left = seq![(label_text(code), style)] + deps;
    if output is Some && output->0.task.done {
        if output->0.task.exit_code == Some(0i32) {
            left.push((" "@ + SUCCESS_SYMBOL@, style.patch_spec(plain().fg_spec(theme.success))))
        } else {
            left.push((" "@ + ERROR_SYMBOL@, style.patch_spec(plain().fg_spec(theme.error))))
        }
    } else {
        left
    }
}

/// Turns a document into lines.
pub struct MarkdownRenderer<'a> {
    pub theme: &'a Theme,
    pub painter: &'a Painter,
    pub source: &'a str,
    pub outputs: &'a HashMap<CodeId, TaskOutput>,
    pub codes: &'a [Code],
    pub inline_max_lines: usize,
    pub viewport_width: usize,
    pub mode: RenderMode,
}

impl<'a> MarkdownRenderer<'a> {
    /// The task of a block.
    pub open spec fn output_of(&self, id: CodeId) -> Option<TaskOutput> {
        if self.outputs@.contains_key(id) {
            Some(self.outputs@[id])
        } else {
            None
        }
    }

    /// Whether a block is running.
    pub open spec fn runs(&self, id: CodeId) -> bool {
        self.output_of(id) is Some && self.output_of(id)->0.task.started
            && !self.output_of(id)->0.task.done
    }

    /// The color of a block's status.
    pub open spec fn gutter_color(&self, id: CodeId) -> Option<Color> {
        match self.output_of(id) {
            Some(output) => status_color(*self.theme, output.task.status_spec()),
            None => None,
        }
    }

    /// The line above a code block.
    pub open spec fn info_view(&self, code: Code, is_start: bool) -> LogicalView {
        LogicalView {
            code_id: Some(code.id),
            is_block_start: is_start,
            is_code_start: is_start,
            is_running: self.runs(code.id),
            gutter_fg: self.gutter_color(code.id),
            ..LogicalView::holding(
                SourceView::CodeInfo(
                    InfoView {
                        left: info_left(code, *self.theme, self.output_of(code.id)),
                        right: code.language_name@ + " "@,
                        style: self.theme.code_info(),
                    },
                ),
            )
        }
    }

    /// The lines of a block's code.
    pub open spec fn body_views(&self, code: Code) -> Seq<LogicalView> {
        text_lines(code.content@).map_values(
            |line: Seq<char>|
                LogicalView {
                    code_id: Some(code.id),
                    gutter_fg: self.gutter_color(code.id),
                    is_running: self.runs(code.id),
                    ..LogicalView::holding(
                        SourceView::CodeBody(TextView::code(line, code.language@)),
                    )
                },
        )
    }

    /// The lines of a block's output.
    pub open spec fn output_views(&self, code: Code) -> Seq<LogicalView> {
        match self.output_of(code.id) {
            Some(output) => {
                let (start, end) = output_window(output, self.inline_max_lines as int);
                line_views(output.lines@).subrange(start, end).map_values(
                    |line: LineView|
                        LogicalView {
                            code_id: Some(code.id),
                            gutter_fg: self.gutter_color(code.id),
                            is_running: self.runs(code.id),
                            ..LogicalView::holding(
                                SourceView::Output(
                                    seq![filled_line(line, self.theme.output_background)],
                                ),
                            )
                        },
                )
            },
            None => Seq::empty(),
        }
    }

    /// Appends a code block.
    pub open spec fn with_code(&self, state: RenderView, id: CodeId) -> RenderView {
        let code = code_of(self.codes@, id);
        state.snapped(id).noting_overhead(id).pushed(self.info_view(code, !state.snaps())).pushed_all(
            self.body_views(code),
        ).pushed_all(self.output_views(code))
    }

    fn is_running(&self, id: CodeId) -> (running: bool)
        ensures
            running == self.runs(id),
    {
        match self.outputs.get(&id) {
            Some(output) => output.task.running(),
            None => false,
        }
    }

    fn gutter_fg(&self, id: CodeId) -> (color: Option<Color>)
        ensures
            color == self.gutter_color(id),
    {
        match self.outputs.get(&id) {
            Some(output) => match output.task.status() {
                TaskStatus::Running => Some(self.theme.warning),
                TaskStatus::Success => Some(self.theme.success),
                TaskStatus::Error => Some(self.theme.error),
                TaskStatus::Idle => None,
            },
            None => None,
        }
    }

    fn info_spans(&self, code: &Code) -> (left: Vec<Span>)
        ensures
            line_view(left@) == info_left(*code, *self.theme, self.output_of(code.id)),
    {
        let style = self.theme.code_info_style();
        let mut label = decimal(code.id as u64);
        if !code.name.as_str().is_empty() {
            label.append(" ");
            label.append(code.name.as_str());
        }
        let mut left: Vec<Span> = Vec::new();
        left.push(Span::styled(label, style));
        let ghost first = seq![(label_text(*code), style)];
        assert(line_view(left@) =~= first);
        match &code.deps_tokens {
            None => {
                left.push(Span::styled(" [invalid]".to_owned(), style.fg(self.theme.error)));
                assert(line_view(left@) =~= first + seq![
                    (" [invalid]"@, style.fg_spec(self.theme.error)),
                ]);
            },
            Some(tokens) => {
                let ghost whole = deps_runs(tokens@, *self.theme);
                let mut i: usize = 0;
                assert(first + whole.take(0) =~= first);
                while i < tokens.len()
                    invariant
                        i <= tokens@.len(),
                        style == self.theme.code_info(),
                        whole == deps_runs(tokens@, *self.theme),
                        line_view(left@) == first + whole.take(i as int),
                    decreases tokens@.len() - i,
                {
                    let token_style = if tokens[i].punct {
                        style.patch(self.theme.muted_style())
                    } else {
                        style
                    };
                    let span = Span::styled(tokens[i].text.clone(), token_style);
                    let ghost before = line_view(left@);
                    let ghost shown = span@;
                    left.push(span);
                    proof {
                        assert(line_view(left@) =~= before.push(shown));
                        assert(whole[i as int] == shown);
                        assert(first + whole.take(i + 1) =~= (first + whole.take(i as int)).push(
                            shown,
                        ));
                    }
                    i += 1;
                }
                assert(whole.take(i as int) =~= whole);
            },
        }
        if let Some(output) = self.outputs.get(&code.id) {
            if output.task.done {
                let ok = match output.task.exit_code {
                    Some(code) => code == 0,
                    None => false,
                };
                let mut symbol = " ".to_owned();
                symbol.append(
                    if ok {
                        SUCCESS_SYMBOL
                    } else {
                        ERROR_SYMBOL
                    },
                );
                let status = if ok {
                    self.theme.success_style()
                } else {
                    self.theme.error_style()
                };
                let span = Span::styled(symbol, style.patch(status));
                let ghost before = line_view(left@);
                let ghost shown = span@;
                left.push(span);
                assert(line_view(left@) =~= before.push(shown));
            }
        }
        left
    }

    /// The line above a code block.
    fn render_code_info(&self, code: &Code, is_start: bool) -> (line: LogicalLine)
        ensures
            line@ == self.info_view(*code, is_start),
            line.source.wf(),
    {
        let mut right = code.language_name.clone();
        right.append(" ");
        let mut line = LogicalLine::code_info(
            self.info_spans(code),
            right,
            self.theme.code_info_style(),
            code.id,
            is_start,
            self.is_running(code.id),
        );
        line.gutter_fg = self.gutter_fg(code.id);
        line
    }

    fn render_code_body(&self, code: &Code, state: &mut RenderState)
        requires
            lines_wf(old(state).lines@),
        ensures
            final(state)@ == old(state)@.pushed_all(self.body_views(*code)),
            lines_wf(final(state).lines@),
    {
        let texts = lines_of(code.content.as_str());
        let gutter_fg = self.gutter_fg(code.id);
        let is_running = self.is_running(code.id);
        let ghost before = state@;
        let ghost all = self.body_views(*code);
        let ghost view = strings_view(texts@);
        let mut i: usize = 0;
        assert(all.take(0) =~= Seq::empty());
        while i < texts.len()
            invariant
                i <= texts@.len(),
                view == strings_view(texts@),
                view == text_lines(code.content@),
                all == self.body_views(*code),
                gutter_fg == self.gutter_color(code.id),
                is_running == self.runs(code.id),
                state@ == before.pushed_all(all.take(i as int)),
                lines_wf(state.lines@),
            decreases texts@.len() - i,
        {
            let mut line = LogicalLine::code_body(
                texts[i].clone(),
                code.language.clone(),
                code.id,
            );
            line.gutter_fg = gutter_fg;
            line.is_running = is_running;
            proof {
                assert(view[i as int] == texts@[i as int]@);
                assert(all[i as int] == line@);
                assert(all.take(i + 1).drop_last() =~= all.take(i as int));
                assert(all.take(i + 1).last() == all[i as int]);
            }
            state.push_line(line);
            i += 1;
        }
        assert(all.take(i as int) =~= all);
    }

    fn render_code_output(&self, code: &Code, state: &mut RenderState)
        requires
            lines_wf(old(state).lines@),
        ensures
            final(state)@ == old(state)@.pushed_all(self.output_views(*code)),
            lines_wf(final(state).lines@),
    {
        let output = match self.outputs.get(&code.id) {
            Some(output) => output,
            None => {
                return ;
            },
        };
        let total: usize = output.lines.len();
        let (start, end): (usize, usize) = if output.alternate {
            (0, total)
        } else {
            let offset: usize = output.task.inline_scroll.saturating_sub(output.scrollback);
            let end: usize = (output.rows as usize).saturating_sub(offset).min(total);
            (end.saturating_sub(self.inline_max_lines), end)
        };
        let gutter_fg = self.gutter_fg(code.id);
        let is_running = self.is_running(code.id);
        let ghost before = state@;
        let ghost all = self.output_views(*code);
        let ghost window = line_views(output.lines@).subrange(start as int, end as int);
        let mut i: usize = start;
        assert(all.take(0) =~= Seq::empty());
        while i < end
            invariant
                start <= i <= end <= output.lines@.len(),
                all == self.output_views(*code),
                all.len() == end - start,
                window == line_views(output.lines@).subrange(start as int, end as int),
                forall|k: int|
                    0 <= k < all.len() ==> #[trigger] all[k] == (LogicalView {
                        code_id: Some(code.id),
                        gutter_fg: self.gutter_color(code.id),
                        is_running: self.runs(code.id),
                        ..LogicalView::holding(
                            SourceView::Output(
                                seq![filled_line(window[k], self.theme.output_background)],
                            ),
                        )
                    }),
                gutter_fg == self.gutter_color(code.id),
                is_running == self.runs(code.id),
                state@ == before.pushed_all(all.take(i - start)),
                lines_wf(state.lines@),
            decreases end - i,
        {
            let mut content: Vec<Line> = Vec::new();
            content.push(fill_line(&output.lines[i], self.theme.output_background));
            proof {
                assert(window[i - start] == output.lines@[i as int]@);
                assert(line_views(content@) =~= seq![
                    filled_line(window[i - start], self.theme.output_background),
                ]);
            }
            let mut line = LogicalLine::output(content, code.id);
            line.gutter_fg = gutter_fg;
            line.is_running = is_running;
            proof {
                assert(all[i - start] == line@);
                assert(all.take(i - start + 1).drop_last() =~= all.take(i - start));
                assert(all.take(i - start + 1).last() == all[i - start]);
            }
            state.push_line(line);
            i += 1;
        }
        assert(all.take(i - start) =~= all);
    }

    /// Appends a code block: the line above it, its code and its output.
    pub fn render_code(&self, id: CodeId, state: &mut RenderState)
        requires
            lines_wf(old(state).lines@),
            has_block(self.codes@, id),
        ensures
            final(state)@ == self.with_code(old(state)@, id),
            lines_wf(final(state).lines@),
    {
        if let Some(code) = code_by_id(self.codes, id) {
            let snapped = state.snap_to(id);
            let width = text_len(&state.prefixes);
            if width > 0 {
                state.overhead.insert(id, width);
            }
            let info = self.render_code_info(code, !snapped);
            state.push_line(info);
            self.render_code_body(code, state);
            self.render_code_output(code, state);
        }
    }
}

/// Output stands on its background wherever the program chose none; its own colors and its
/// text are kept.
pub proof fn law_output_has_its_background(line: LineView, bg: Color, i: int)
    requires
        0 <= i < line.spans.len(),
    ensures
        ({
            let shown = filled_line(line, bg);
            let chosen = line.spans[i].1.bg;
            &&& shown.spans.len() == line.spans.len()
            &&& shown.spans[i].0 == line.spans[i].0
            &&& shown.spans[i].1.fg == line.spans[i].1.fg
            &&& chosen is None || chosen == Some(Color::Reset) ==> shown.spans[i].1.bg == Some(bg)
            &&& chosen is Some && chosen != Some(Color::Reset) ==> shown.spans[i].1.bg == chosen
        }),
{
}

} // verus!
