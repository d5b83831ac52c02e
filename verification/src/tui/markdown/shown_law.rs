//! What a rendered document shows.

use vstd::prelude::*;

use crate::code::{code_of, Code, CodeId};
use crate::num::{larger, less_by};
use crate::style::{line_text, line_views, LineView, Style};
use crate::task::TaskStatus;
use crate::text::{
    decimal_text, decimal_value, law_digits_stand_for_the_number, repeated, text_lines,
};
use crate::theme::Theme;
use crate::theme_library::Painter;
use crate::tui::markdown::inline::{advance_of, column_after, expanded, formatted, InlineStyle};
use crate::tui::markdown::line::{
    frontmatter_lines, FrontmatterStyle, InfoView, LogicalView, SourceView, TextView,
};
use crate::tui::markdown::paint::{gutter_of, guttered, info_line, RenderContext};
use crate::tui::markdown::render::{
    filled_line, info_left, label_text, status_color, MarkdownRenderer, RenderView,
};
use crate::tui::tasks::TaskOutput;

verus! {

/// Emphasis shows exactly where it is asked for: bold, italic and struck-out text keeps
/// what it had before, and links are underlined.
pub proof fn law_emphasis_shows(theme: Theme, base: Style, styles: Seq<InlineStyle>)
    ensures
        ({
            let style = formatted(theme, base, styles);
            &&& style.add.bold <==> base.add.bold || styles.contains(InlineStyle::Bold)
            &&& style.add.italic <==> base.add.italic || styles.contains(InlineStyle::Italic)
                || styles.contains(InlineStyle::Image)
            &&& style.add.crossed_out <==> base.add.crossed_out || styles.contains(
                InlineStyle::Strikethrough,
            )
            &&& style.add.underlined <==> base.add.underlined || styles.contains(
                InlineStyle::Link,
            )
            &&& styles.len() == 0 ==> style == base
            &&& styles.len() > 0 && styles.last() == InlineStyle::InlineCode ==> style.bg == Some(
                theme.code_background,
            )
            &&& styles.len() > 0 && styles.last() == InlineStyle::Link ==> style.fg == Some(
                theme.accent,
            )
        }),
    decreases styles.len(),
{
    if styles.len() > 0 {
        let less = styles.drop_last();
        law_emphasis_shows(theme, base, less);
        assert(styles =~= less.push(styles.last()));
        crate::seqs::lemma_push_contains(less, styles.last());
    }
}

/// A tab leads to the next tab stop, four columns apart, and always on.
pub proof fn law_tabs_end_at_stops(column: int)
    requires
        column >= 0,
    ensures
        1 <= advance_of('\t', column) <= 4,
        (column + advance_of('\t', column)) % 4 == 0,
{
    assert((column + (4 - column % 4)) % 4 == 0) by (nonlinear_arith)
        requires
            column >= 0,
    ;
}

/// A tab is shown as blanks up to the next stop, and other characters as they are.
pub proof fn law_tabs_become_blanks(text: Seq<char>, column: int, c: char)
    ensures
        c != '\t' ==> expanded(text.push(c), column) == expanded(text, column).push(c),
        c == '\t' ==> expanded(text.push(c), column) == expanded(text, column) + repeated(
            ' ',
            advance_of('\t', column_after(text, column)) as nat,
        ),
        expanded(Seq::empty(), column).len() == 0,
{
    assert(text.push(c).drop_last() =~= text);
}

impl RenderView {
    /// Lines are appended in order, each behind what stands in front of every line.
    pub proof fn law_lines_are_appended(self, lines: Seq<LogicalView>, i: int)
        requires
            0 <= i < lines.len(),
        ensures
            ({
                let after = self.pushed_all(lines);
                let line = after.lines[self.lines.len() + i];
                &&& after.lines.len() == self.lines.len() + lines.len()
                &&& after.lines.take(self.lines.len() as int) == self.lines
                &&& line.source == lines[i].source
                &&& line.prefixes == self.prefixes + lines[i].prefixes
                &&& line.code_id == lines[i].code_id
                &&& line.is_code_start == lines[i].is_code_start
                &&& line.is_block_start == lines[i].is_block_start
                &&& after.prefixes == self.prefixes
                &&& after.overhead == self.overhead
            }),
        decreases lines.len(),
    {
        let less = lines.drop_last();
        let before = self.pushed_all(less);
        let after = self.pushed_all(lines);
        if less.len() > 0 {
            let k = if i < less.len() {
                i
            } else {
                0
            };
            self.law_lines_are_appended(less, k);
            assert(after.lines.take(self.lines.len() as int) =~= before.lines.take(
                self.lines.len() as int,
            ));
        } else {
            assert(after.lines.take(self.lines.len() as int) =~= self.lines);
        }
        if i < less.len() {
            assert(after.lines[self.lines.len() + i] == before.lines[self.lines.len() + i]);
            assert(less[i] == lines[i]);
        }
    }
}

/// The line above a code block starts with its number, and its name behind it. Once it
/// ended, a tick or a cross follows, in the color of successes or of errors.
pub proof fn law_blocks_are_headed_by_their_number(
    code: Code,
    theme: Theme,
    output: Option<TaskOutput>,
)
    ensures
        ({
            let label = label_text(code);
            let left = info_left(code, theme, output);
            let digits = decimal_text(code.id as nat).len() as int;
            &&& digits <= label.len()
            &&& decimal_value(label.take(digits)) == code.id
            &&& code.name@.len() > 0 ==> label.skip(digits) == seq![' '] + code.name@
            &&& code.name@.len() == 0 ==> label.len() == digits
            &&& left.len() > 0 && left[0].0 == label
            &&& output is Some && output->0.task.done && output->0.task.exit_code == Some(0i32)
                ==> left.last().0 == seq![' ', '✔'] && left.last().1.fg == Some(theme.success)
            &&& output is Some && output->0.task.done && output->0.task.exit_code != Some(0i32)
                ==> left.last().0 == seq![' ', '✘'] && left.last().1.fg == Some(theme.error)
        }),
{
    reveal_strlit(" ");
    reveal_strlit("✔");
    reveal_strlit("✘");
    let label = label_text(code);
    let number = decimal_text(code.id as nat);
    let digits = number.len() as int;
    law_digits_stand_for_the_number(code.id as nat);
    assert(label.take(digits) =~= number);
    if code.name@.len() > 0 {
        assert(label.skip(digits) =~= seq![' '] + code.name@);
    }
    assert(" "@ + "✔"@ =~= seq![' ', '✔']);
    assert(" "@ + "✘"@ =~= seq![' ', '✘']);
}

/// The line above a code block ends with the language, as far to the right as there is
/// room; a block that runs shows the spinner behind its label.
pub proof fn law_the_language_stands_at_the_right(
    info: InfoView,
    running: bool,
    prefix: int,
    theme: Theme,
    spinner: char,
    viewport: int,
)
    ensures
        ({
            let line = info_line(info, running, prefix, theme, spinner, viewport);
            let text = line_text(line.spans);
            let used = line_text(info.left).len() + info.right.len() + (if running {
                2int
            } else {
                0
            });
            &&& line.spans.last().0 == info.right
            &&& text.skip(text.len() - info.right.len()) == info.right
            &&& text.take(line_text(info.left).len() as int) == line_text(info.left)
            &&& running ==> text[line_text(info.left).len() as int + 1] == spinner
            &&& text.len() >= used + 1
            &&& text.len() == larger(
                used + 1,
                larger(
                    less_by(viewport, crate::config::PREVIEW_CODE_WRAP_OVERHEAD + prefix),
                    1,
                ),
            )
        }),
{
    reveal_strlit(" ");
    let line = info_line(info, running, prefix, theme, spinner, viewport);
    let left = if running {
        info.left.push((" "@.push(spinner), theme.active_fg()))
    } else {
        info.left
    };
    assert(info.left.push((" "@.push(spinner), theme.active_fg())).drop_last() =~= info.left);
    let mark = " "@.push(spinner);
    assert(line_text(left) =~= if running {
        line_text(info.left) + mark
    } else {
        line_text(info.left)
    });
    let less = line.spans.drop_last();
    let blank = less.last().0;
    assert(less.drop_last() =~= left);
    assert(line_text(less) == line_text(left) + blank);
    let text = line_text(line.spans);
    assert(text == line_text(left) + blank + info.right);
    assert(text.skip(text.len() - info.right.len()) =~= info.right);
    assert(text.take(line_text(info.left).len() as int) =~= line_text(info.left));
}

/// The gutter of a block shows that it is active, or how it stands where it is not, runs,
/// or just ended; a line in the gutter stands behind its bar and a blank.
pub proof fn law_the_gutter_shows_the_status(
    theme: Theme,
    status: TaskStatus,
    unwrappable: bool,
    line: LineView,
    gutter: Style,
)
    ensures
        status_color(theme, TaskStatus::Running) == Some(theme.warning),
        status_color(theme, TaskStatus::Success) == Some(theme.success),
        status_color(theme, TaskStatus::Error) == Some(theme.error),
        status_color(theme, TaskStatus::Idle) is None,
        gutter_of(None, unwrappable, true, theme, status_color(theme, status), false, false).fg
            == Some(theme.active),
        status != TaskStatus::Idle ==> gutter_of(
            None,
            unwrappable,
            false,
            theme,
            status_color(theme, status),
            false,
            false,
        ).fg == status_color(theme, status),
        status == TaskStatus::Running ==> gutter_of(
            None,
            unwrappable,
            true,
            theme,
            status_color(theme, status),
            false,
            true,
        ).fg == Some(theme.warning),
        guttered(line, gutter).spans.len() >= 1,
        guttered(line, gutter).spans[0].1 == gutter,
        line.spans.len() > 0 ==> guttered(line, gutter).spans.skip(2) == line.spans,
{
    assert(guttered(line, gutter).spans.skip(2) =~= line.spans || line.spans.len() == 0);
}

impl<'a> MarkdownRenderer<'a> {
    /// The lines of a code block are those of its code, in order, and belong to it.
    pub proof fn law_code_is_shown_line_by_line(&self, code: Code, i: int)
        requires
            0 <= i < text_lines(code.content@).len(),
        ensures
            ({
                let lines = self.body_views(code);
                &&& lines.len() == text_lines(code.content@).len()
                &&& lines[i].source is CodeBody
                &&& lines[i].source->CodeBody_0.text == text_lines(code.content@)[i]
                &&& lines[i].code_id == Some(code.id)
                &&& !lines[i].is_code_start
            }),
    {
    }

    /// Below a block stand the last lines of its output, as many as are allowed, in
    /// order, unless the reader scrolled back; a block that did not run has none.
    pub proof fn law_output_is_shown_below(&self, code: Code, i: int)
        requires
            self.outputs@.contains_key(code.id),
            !self.outputs@[code.id].alternate,
            self.outputs@[code.id].task.inline_scroll == 0,
            self.outputs@[code.id].lines@.len() == self.outputs@[code.id].rows,
        ensures
            ({
                let all = line_views(self.outputs@[code.id].lines@);
                let shown = self.output_views(code);
                let count = if all.len() < self.inline_max_lines {
                    all.len() as int
                } else {
                    self.inline_max_lines as int
                };
                &&& shown.len() == count
                &&& 0 <= i < count ==> shown[i].source == SourceView::Output(
                    seq![filled_line(all[all.len() - count + i], self.theme.output_background)],
                )
                &&& 0 <= i < count ==> shown[i].code_id == Some(code.id)
            }),
    {
    }

    /// A block that did not run shows no output.
    pub proof fn law_blocks_that_did_not_run_show_no_output(&self, code: Code)
        requires
            !self.outputs@.contains_key(code.id),
        ensures
            self.output_views(code).len() == 0,
            self.gutter_color(code.id) is None,
            !self.runs(code.id),
    {
    }

    /// A block shows its heading line, its code and its output, one below the other; the
    /// lines before it stay where they are.
    pub proof fn law_blocks_stand_one_below_the_other(&self, state: RenderView, id: CodeId)
        ensures
            ({
                let code = code_of(self.codes@, id);
                let after = self.with_code(state, id);
                let before = state.lines.len() as int;
                &&& after.lines.len() == before + 1 + text_lines(code.content@).len()
                    + self.output_views(code).len()
                &&& after.lines[before].source is CodeInfo
                &&& after.lines[before].code_id == Some(code.id)
                &&& forall|i: int|
                    0 <= i < before ==> (#[trigger] after.lines[i]).source
                        == state.lines[i].source
                &&& forall|i: int|
                    0 <= i < text_lines(code.content@).len() ==> (#[trigger] after.lines[before + 1
                        + i]).source == self.body_views(code)[i].source
                &&& after.snap.title_line is None
                &&& after.snap.description_line is None
            }),
    {
        let code = code_of(self.codes@, id);
        let base = state.snapped(id).noting_overhead(id).pushed(
            self.info_view(code, !state.snaps()),
        );
        let body = self.body_views(code);
        let output = self.output_views(code);
        let middle = base.pushed_all(body);
        let after = self.with_code(state, id);
        let before = state.lines.len() as int;
        assert(base.lines.len() == before + 1);
        assert forall|i: int| 0 <= i < body.len() implies middle.lines[base.lines.len() + i].source
            == #[trigger] body[i].source by {
            base.law_lines_are_appended(body, i);
        }
        lemma_appended(base, body);
        lemma_appended(middle, output);
        assert forall|i: int| 0 <= i < before implies (#[trigger] after.lines[i]).source
            == state.lines[i].source by {
            assert(after.lines[i] == middle.lines[i]);
            assert(middle.lines[i] == base.lines[i]);
        }
        assert forall|i: int| 0 <= i < text_lines(code.content@).len() implies (
        #[trigger] after.lines[before + 1 + i]).source == self.body_views(code)[i].source by {
            assert(after.lines[before + 1 + i] == middle.lines[before + 1 + i]);
            assert(middle.lines[base.lines.len() + i].source == body[i].source);
        }
        assert(after.lines[before] == middle.lines[before]);
        assert(middle.lines[before] == base.lines[before]);
    }
}

proof fn lemma_appended(state: RenderView, lines: Seq<LogicalView>)
    ensures
        state.pushed_all(lines).lines.len() == state.lines.len() + lines.len(),
        forall|i: int|
            0 <= i < state.lines.len() ==> #[trigger] state.pushed_all(lines).lines[i]
                == state.lines[i],
        state.pushed_all(lines).snap == state.snap,
    decreases lines.len(),
{
    if lines.len() > 0 {
        lemma_appended(state, lines.drop_last());
    }
}

impl LogicalView {
    /// What stands in front of a line is shown before its content, and the content of
    /// lines without a gutter is shown as it is.
    pub proof fn law_prefixes_stand_in_front(self, ctx: RenderContext<'_>, highlight: bool)
        requires
            !self.gutter(),
            !(self.source is ThematicBreak),
            !(self.source is TableRow),
        ensures
            self.shown(ctx, highlight).text() == line_text(self.prefixes) + self.content(
                *ctx.theme,
                *ctx.painter,
                ctx.spinner_char,
                ctx.viewport_width as int,
                highlight,
            ).text(),
    {
        let content = self.content(
            *ctx.theme,
            *ctx.painter,
            ctx.spinner_char,
            ctx.viewport_width as int,
            highlight,
        );
        crate::style::lemma_line_text_add(self.prefixes, content.spans);
    }

    /// Code stands on the background of code, whatever its own colors; its text is kept.
    pub proof fn law_code_has_its_background(self, line: LineView, active: bool, theme: Theme, i: int)
        requires
            self.source is CodeBody,
            0 <= i < line.spans.len(),
        ensures
            ({
                let shown = self.in_state(line, active, theme);
                &&& shown.spans.len() == line.spans.len()
                &&& shown.spans[i].0 == line.spans[i].0
                &&& shown.spans[i].1.bg == Some(theme.code_background)
                &&& shown.spans[i].1.fg == line.spans[i].1.fg
                &&& shown.style.bg == Some(theme.code_background)
            }),
    {
    }

    /// The head of the active block has the active color where it begins; other heads stay
    /// as they are.
    pub proof fn law_the_active_block_stands_out(self, line: LineView, theme: Theme, i: int)
        requires
            self.source is CodeInfo,
            0 <= i < line.spans.len(),
        ensures
            self.in_state(line, false, theme) == line,
            self.in_state(line, true, theme).spans[0].1.fg == Some(theme.active),
            self.in_state(line, true, theme).spans[i].0 == line.spans[i].0,
            i > 0 ==> self.in_state(line, true, theme).spans[i] == line.spans[i],
    {
    }

    /// A line is active where its block is; lines outside of blocks never are.
    pub proof fn law_lines_of_the_active_block(self, active: Option<CodeId>)
        ensures
            self.code_id is None ==> !self.active(active),
            active is None ==> !self.active(active),
            self.code_id is Some ==> self.active(self.code_id),
            self.active(active) ==> active == self.code_id,
    {
    }

    /// A thematic break is a rule across what the frame and the prefixes leave.
    pub proof fn law_breaks_are_rules(self, theme: Theme, painter: Painter, viewport: int, i: int)
        requires
            self.source is ThematicBreak,
            viewport >= 4 + line_text(self.prefixes).len(),
        ensures
            ({
                let line = self.synthetic(theme, painter, viewport);
                &&& line is Some
                &&& line->0.text().len() == viewport - 4 - line_text(self.prefixes).len()
                &&& 0 <= i < line->0.text().len() ==> line->0.text()[i] == '─'
            }),
    {
        let line = self.synthetic(theme, painter, viewport)->0;
        crate::style::lemma_line_text_one(line.spans[0]);
        assert(line.spans =~= seq![line.spans[0]]);
    }
}

/// Metadata stands between two fences of its format, line by line.
pub proof fn law_metadata_stands_between_fences(
    style: FrontmatterStyle,
    raw: Seq<char>,
    i: int,
)
    ensures
        ({
            let lines = frontmatter_lines(style, raw);
            &&& lines.len() == text_lines(raw).len() + 2
            &&& lines[0] == lines.last()
            &&& style == FrontmatterStyle::Yaml ==> lines[0] == seq!['-', '-', '-']
            &&& style == FrontmatterStyle::Toml ==> lines[0] == seq!['+', '+', '+']
            &&& 0 <= i < text_lines(raw).len() ==> lines[i + 1] == text_lines(raw)[i]
        }),
{
    reveal_strlit("---");
    reveal_strlit("+++");
    assert("---"@ =~= seq!['-', '-', '-']);
    assert("+++"@ =~= seq!['+', '+', '+']);
}

/// What a search looks through is what a line says: its text, and the head of a block with
/// its language.
pub proof fn law_searches_read_what_is_said(view: LogicalView, text: TextView, level: u8)
    ensures
        view.source == SourceView::Text(text) ==> view.content_text() == text.text,
        view.source == SourceView::ListItem(text) ==> view.content_text() == text.text,
        view.source == SourceView::CodeBody(text) ==> view.content_text() == text.text,
        (view.source == SourceView::Heading { level, text }) ==> view.content_text() == text.text,
        view.source is Image ==> view.content_text() == view.source->alt,
        view.source is TableRow ==> view.content_text() == view.source->initial.text(),
        view.source is Newline || view.source is ThematicBreak ==> view.content_text().len() == 0,
        view.source is CodeInfo ==> crate::text::contains_text(
            view.content_text(),
            line_text(view.source->CodeInfo_0.left),
        ),
{
    if view.source is CodeInfo {
        let info = view.source->CodeInfo_0;
        let behind = " "@ + crate::text::trimmed_end(info.right);
        assert(view.content_text() =~= Seq::empty() + line_text(info.left) + behind);
        crate::text::lemma_stands_between(Seq::empty(), line_text(info.left), behind);
    }
}

/// Rows, tables, output, heads, images and rules are never wrapped; only code and its
/// output stand behind a gutter.
pub proof fn law_only_text_is_wrapped(view: LogicalView)
    ensures
        view.source is Text || view.source is ListItem || view.source is Heading || view.source
            is CodeBody || view.source is Html || view.source is Frontmatter ==> !view.unwrappable(),
        view.source is TableRow || view.source is Output || view.source is Image || view.source
            is ThematicBreak || view.source is CodeInfo ==> view.unwrappable(),
        view.gutter() ==> view.source is CodeInfo || view.source is CodeBody || view.source
            is Output,
        view.source is CodeBody || view.source is Output || view.source is CodeInfo ==> view.gutter(),
{
}

} // verus!
