//! Text of the command-line front end: transcripts, cards and the file picker.

use std::collections::HashMap;

use vstd::prelude::*;

use crate::code::{find_block, has_block, Code, CodeId};
use crate::num::{fit_u16, less_by, to_u16};
use crate::picker::PickerState;
use crate::style::{
    ansi_bg, ansi_bg_text, ansi_fg, ansi_fg_text, ansi_style, ansi_style_text, line_text, line_view,
    lines_view, Span, Style,
};
use crate::task::Task;
use crate::text::{
    decimal, decimal_text, join_first, joined_text, lines_of, repeat_char, repeated, signed_decimal,
    signed_text, strings_view, text_lines,
};
use crate::theme::Theme;

verus! {

broadcast use vstd::std_specs::hash::group_hash_axioms;

/// A block's execution with what its terminal shows.
pub struct BlockOutput {
    pub task: Task,
    /// The lines of the block's terminal.
    pub screen: Vec<Vec<Span>>,
    /// A full-screen program has taken over the block's terminal.
    pub alternate: bool,
}

/// The sequence that ends a style.
pub open spec fn reset_text() -> Seq<char> {
    "\x1b[0m"@
}

/// What a block is called: its name, or its number where it has none.
pub open spec fn label_text(codes: Seq<Code>, id: CodeId) -> Seq<char> {
    if has_block(codes, id) {
        let code = codes[first_with_id(codes, id)];
        if code.name@.len() == 0 {
            decimal_text(code.id as nat)
        } else {
            code.name@
        }
    } else {
        decimal_text(id as nat)
    }
}

/// The first block with a number.
pub open spec fn first_with_id(codes: Seq<Code>, id: CodeId) -> int {
    choose|i: int|
        0 <= i < codes.len() && (#[trigger] codes[i]).id == id && forall|j: int|
            0 <= j < i ==> (#[trigger] codes[j]).id != id
}

/// What a block is called.
pub fn code_label(codes: &[Code], id: CodeId) -> (label: String)
    ensures
        label@ == label_text(codes@, id),
{
    match find_block(codes, id) {
        Some(i) => {
            proof {
                let k = first_with_id(codes@, id);
                assert(codes@[i as int].id == id);
                if k < i {
                    assert(codes@[k].id != id);
                }
                if i < k {
                    assert(codes@[i as int].id != id);
                }
            }
            if codes[i].name.as_str().is_empty() {
                decimal(codes[i].id as u64)
            } else {
                codes[i].name.clone()
            }
        },
        None => decimal(id as u64),
    }
}

/// The text of a line, each run in its style.
pub open spec fn styled_line(line: Seq<(Seq<char>, Style)>) -> Seq<char>
    decreases line.len(),
{
    if line.len() == 0 {
        Seq::empty()
    } else {
        styled_line(line.drop_last()) + ansi_style_text(line.last().1) + line.last().0
            + reset_text()
    }
}

/// Lines without styles, each ended by a newline.
pub open spec fn bare_lines(lines: Seq<Seq<(Seq<char>, Style)>>) -> Seq<char>
    decreases lines.len(),
{
    if lines.len() == 0 {
        Seq::empty()
    } else {
        bare_lines(lines.drop_last()) + line_text(lines.last()) + "\n"@
    }
}

/// Indented lines in their styles, each ended by a newline.
pub open spec fn styled_lines(lines: Seq<Seq<(Seq<char>, Style)>>) -> Seq<char>
    decreases lines.len(),
{
    if lines.len() == 0 {
        Seq::empty()
    } else {
        styled_lines(lines.drop_last()) + "  "@ + styled_line(lines.last()) + "\n"@
    }
}

fn push_bare_line(out: &mut String, line: &Vec<Span>)
    ensures
        final(out)@ == old(out)@ + line_text(line_view(line@)),
{
    let ghost view = line_view(line@);
    let mut i: usize = 0;
    assert(out@ + line_text(view.take(0)) =~= out@);
    while i < line.len()
        invariant
            i <= line@.len(),
            view == line_view(line@),
            out@ == old(out)@ + line_text(view.take(i as int)),
        decreases line@.len() - i,
    {
        out.append(line[i].content.as_str());
        proof {
            let longer = view.take(i + 1);
            assert(longer.drop_last() =~= view.take(i as int));
            assert(longer.last() == line@[i as int]@);
            assert(out@ =~= old(out)@ + line_text(longer));
        }
        i += 1;
    }
    assert(view.take(i as int) =~= view);
}

fn push_styled_line(out: &mut String, line: &Vec<Span>)
    ensures
        final(out)@ == old(out)@ + styled_line(line_view(line@)),
{
    let ghost view = line_view(line@);
    let mut i: usize = 0;
    assert(out@ + styled_line(view.take(0)) =~= out@);
    while i < line.len()
        invariant
            i <= line@.len(),
            view == line_view(line@),
            out@ == old(out)@ + styled_line(view.take(i as int)),
        decreases line@.len() - i,
    {
        out.append(ansi_style(line[i].style).as_str());
        out.append(line[i].content.as_str());
        out.append("\x1b[0m");
        proof {
            let longer = view.take(i + 1);
            assert(longer.drop_last() =~= view.take(i as int));
            assert(longer.last() == line@[i as int]@);
            assert(out@ =~= old(out)@ + styled_line(longer));
        }
        i += 1;
    }
    assert(view.take(i as int) =~= view);
}

fn push_bare_lines(out: &mut String, lines: &[Vec<Span>])
    ensures
        final(out)@ == old(out)@ + bare_lines(lines_view(lines@)),
{
    let ghost view = lines_view(lines@);
    let mut i: usize = 0;
    assert(out@ + bare_lines(view.take(0)) =~= out@);
    while i < lines.len()
        invariant
            i <= lines@.len(),
            view == lines_view(lines@),
            out@ == old(out)@ + bare_lines(view.take(i as int)),
        decreases lines@.len() - i,
    {
        push_bare_line(out, &lines[i]);
        out.append("\n");
        proof {
            let longer = view.take(i + 1);
            assert(longer.drop_last() =~= view.take(i as int));
            assert(longer.last() == line_view(lines@[i as int]@));
            assert(out@ =~= old(out)@ + bare_lines(longer));
        }
        i += 1;
    }
    assert(view.take(i as int) =~= view);
}

fn push_styled_lines(out: &mut String, lines: &[Vec<Span>])
    ensures
        final(out)@ == old(out)@ + styled_lines(lines_view(lines@)),
{
    let ghost view = lines_view(lines@);
    let mut i: usize = 0;
    assert(out@ + styled_lines(view.take(0)) =~= out@);
    while i < lines.len()
        invariant
            i <= lines@.len(),
            view == lines_view(lines@),
            out@ == old(out)@ + styled_lines(view.take(i as int)),
        decreases lines@.len() - i,
    {
        out.append("  ");
        push_styled_line(out, &lines[i]);
        out.append("\n");
        proof {
            let longer = view.take(i + 1);
            assert(longer.drop_last() =~= view.take(i as int));
            assert(longer.last() == line_view(lines@[i as int]@));
            assert(out@ =~= old(out)@ + styled_lines(longer));
        }
        i += 1;
    }
    assert(view.take(i as int) =~= view);
}

/// Output of a block without styles, between a head line and its result.
pub open spec fn plain_transcript(
    codes: Seq<Code>,
    outputs: Map<CodeId, BlockOutput>,
    id: CodeId,
) -> Seq<char> {
    let label = label_text(codes, id);
    let head = "==> "@ + label + " [block "@ + decimal_text(id as nat) + "]\n"@;
    if outputs.contains_key(id) {
        let output = outputs[id];
        head + bare_lines(lines_view(output.screen@)) + "<== "@ + label + (
        match output.task.exit_code {
            Some(code) => " exited with code "@ + signed_text(code as int) + "\n"@,
            None => " failed to start\n"@,
        })
    } else {
        head + "<== "@ + label + " produced no output\n"@
    }
}

/// Output of a block without styles, between a head line and its result.
pub fn render_plain_transcript(
    codes: &[Code],
    outputs: &HashMap<CodeId, BlockOutput>,
    id: CodeId,
) -> (out: String)
    ensures
        out@ == plain_transcript(codes@, outputs@, id),
{
    let label = code_label(codes, id);
    let mut out = "==> ".to_owned();
    out.append(label.as_str());
    out.append(" [block ");
    out.append(decimal(id as u64).as_str());
    out.append("]\n");
    match outputs.get(&id) {
        Some(output) => {
            push_bare_lines(&mut out, output.screen.as_slice());
            out.append("<== ");
            out.append(label.as_str());
            let ghost start = out@;
            match output.task.exit_code {
                Some(code) => {
                    out.append(" exited with code ");
                    out.append(signed_decimal(code).as_str());
                    out.append("\n");
                    assert(out@ =~= start + (" exited with code "@ + signed_text(code as int)
                        + "\n"@));
                },
                None => {
                    out.append(" failed to start\n");
                },
            }
        },
        None => {
            out.append("<== ");
            out.append(label.as_str());
            out.append(" produced no output\n");
        },
    }
    out
}

/// The result line of a transcript: symbol and words.
pub open spec fn result_text(exit_code: Option<i32>, theme: Theme) -> Seq<char> {
    match exit_code {
        Some(code) => if code == 0 {
            ansi_fg_text(theme.success) + "✔"@ + " "@ + "exited with code 0"@
        } else {
            ansi_fg_text(theme.error) + "✘"@ + " "@ + ("exited with code "@ + signed_text(
                code as int,
            ))
        },
        None => ansi_fg_text(theme.error) + "✘"@ + " "@ + "failed to start"@,
    }
}

/// Output of a block in its styles, between a head line and its result.
pub open spec fn terminal_transcript(
    codes: Seq<Code>,
    outputs: Map<CodeId, BlockOutput>,
    theme: Theme,
    id: CodeId,
) -> Seq<char> {
    let head = "\n"@ + ansi_fg_text(theme.active) + "==> "@ + label_text(codes, id) + " [block "@
        + decimal_text(id as nat) + "]"@ + reset_text() + "\n"@;
    if outputs.contains_key(id) {
        let output = outputs[id];
        head + styled_lines(lines_view(output.screen@)) + "  "@ + result_text(
            output.task.exit_code,
            theme,
        ) + reset_text() + "\n"@
    } else {
        head
    }
}

/// Output of a block in its styles, between a head line and its result.
pub fn render_terminal_transcript(
    codes: &[Code],
    outputs: &HashMap<CodeId, BlockOutput>,
    theme: &Theme,
    id: CodeId,
) -> (out: String)
    ensures
        out@ == terminal_transcript(codes@, outputs@, *theme, id),
{
    let mut out = "\n".to_owned();
    out.append(ansi_fg(theme.active).as_str());
    out.append("==> ");
    out.append(code_label(codes, id).as_str());
    out.append(" [block ");
    out.append(decimal(id as u64).as_str());
    out.append("]");
    out.append("\x1b[0m");
    out.append("\n");
    match outputs.get(&id) {
        Some(output) => {
            push_styled_lines(&mut out, output.screen.as_slice());
            out.append("  ");
            let ghost start = out@;
            match output.task.exit_code {
                Some(code) => {
                    if code == 0 {
                        out.append(ansi_fg(theme.success).as_str());
                        out.append("✔");
                        out.append(" ");
                        out.append("exited with code 0");
                    } else {
                        out.append(ansi_fg(theme.error).as_str());
                        out.append("✘");
                        out.append(" ");
                        out.append("exited with code ");
                        out.append(signed_decimal(code).as_str());
                    }
                },
                None => {
                    out.append(ansi_fg(theme.error).as_str());
                    out.append("✘");
                    out.append(" ");
                    out.append("failed to start");
                },
            }
            assert(out@ =~= start + result_text(output.task.exit_code, *theme));
            out.append("\x1b[0m");
            out.append("\n");
        },
        None => {},
    }
    out
}

/// The state of a block in the list of parallel blocks.
pub open spec fn tab_symbol(outputs: Map<CodeId, BlockOutput>, id: CodeId) -> Seq<char> {
    if outputs.contains_key(id) {
        if !outputs[id].task.done {
            "●"@
        } else if outputs[id].task.exit_code == Some(0i32) {
            "✔"@
        } else {
            "✘"@
        }
    } else {
        "·"@
    }
}

/// One entry of the list of parallel blocks.
pub open spec fn tab_text(
    codes: Seq<Code>,
    outputs: Map<CodeId, BlockOutput>,
    theme: Theme,
    selected: Option<CodeId>,
    id: CodeId,
) -> Seq<char> {
    let color = if selected == Some(id) {
        theme.active
    } else {
        theme.muted
    };
    " "@ + ansi_fg_text(color) + "["@ + label_text(codes, id) + " "@ + tab_symbol(outputs, id)
        + "]"@ + reset_text()
}

/// The entries of the list of parallel blocks.
pub open spec fn tab_list(
    codes: Seq<Code>,
    outputs: Map<CodeId, BlockOutput>,
    theme: Theme,
    selected: Option<CodeId>,
    visible: Seq<CodeId>,
) -> Seq<char>
    decreases visible.len(),
{
    if visible.len() == 0 {
        Seq::empty()
    } else {
        tab_list(codes, outputs, theme, selected, visible.drop_last()) + tab_text(
            codes,
            outputs,
            theme,
            selected,
            visible.last(),
        )
    }
}

/// The list of parallel blocks, where there are several.
pub open spec fn tabs_text(
    codes: Seq<Code>,
    outputs: Map<CodeId, BlockOutput>,
    theme: Theme,
    selected: Option<CodeId>,
    visible: Seq<CodeId>,
) -> Seq<char> {
    if visible.len() <= 1 {
        Seq::empty()
    } else {
        "  Parallel:"@ + tab_list(codes, outputs, theme, selected, visible) + "  "@
            + ansi_fg_text(theme.active) + "tab"@ + reset_text() + " "@ + ansi_fg_text(theme.muted)
            + "switch"@ + reset_text() + "\n"@
    }
}

fn push_tab(
    out: &mut String,
    codes: &[Code],
    outputs: &HashMap<CodeId, BlockOutput>,
    theme: &Theme,
    selected: Option<CodeId>,
    id: CodeId,
)
    ensures
        final(out)@ == old(out)@ + tab_text(codes@, outputs@, *theme, selected, id),
{
    let status = match outputs.get(&id) {
        Some(output) => if !output.task.done {
            "●"
        } else if output.task.exit_code == Some(0) {
            "✔"
        } else {
            "✘"
        },
        None => "·",
    };
    let focused = match selected {
        Some(selected_id) => selected_id == id,
        None => false,
    };
    let color = if focused {
        theme.active
    } else {
        theme.muted
    };
    out.append(" ");
    out.append(ansi_fg(color).as_str());
    out.append("[");
    out.append(code_label(codes, id).as_str());
    out.append(" ");
    out.append(status);
    out.append("]");
    out.append("\x1b[0m");
    assert(out@ =~= old(out)@ + tab_text(codes@, outputs@, *theme, selected, id));
}

/// The list of parallel blocks, where there are several.
pub fn render_batch_tabs(
    codes: &[Code],
    outputs: &HashMap<CodeId, BlockOutput>,
    theme: &Theme,
    selected: Option<CodeId>,
    visible: &[CodeId],
) -> (out: String)
    ensures
        out@ == tabs_text(codes@, outputs@, *theme, selected, visible@),
{
    if visible.len() <= 1 {
        return String::new();
    }
    let mut out = "  Parallel:".to_owned();
    let mut i: usize = 0;
    assert(out@ + tab_list(codes@, outputs@, *theme, selected, visible@.take(0)) =~= out@);
    while i < visible.len()
        invariant
            i <= visible@.len(),
            out@ == "  Parallel:"@ + tab_list(
                codes@,
                outputs@,
                *theme,
                selected,
                visible@.take(i as int),
            ),
        decreases visible@.len() - i,
    {
        push_tab(&mut out, codes, outputs, theme, selected, visible[i]);
        proof {
            let longer = visible@.take(i + 1);
            assert(longer.drop_last() =~= visible@.take(i as int));
            assert(out@ =~= "  Parallel:"@ + tab_list(
                codes@,
                outputs@,
                *theme,
                selected,
                longer,
            ));
        }
        i += 1;
    }
    assert(visible@.take(i as int) =~= visible@);
    out.append("  ");
    out.append(ansi_fg(theme.active).as_str());
    out.append("tab");
    out.append("\x1b[0m");
    out.append(" ");
    out.append(ansi_fg(theme.muted).as_str());
    out.append("switch");
    out.append("\x1b[0m");
    out.append("\n");
    out
}

/// The head of a card: place in the document, language and dependencies.
pub open spec fn card_head(codes: Seq<Code>, selected: int, theme: Theme) -> Seq<char> {
    let code = codes[selected];
    let bg = ansi_bg_text(theme.info_background);
    let fg = ansi_fg_text(theme.info_foreground);
    bg + fg + " ["@ + ansi_fg_text(theme.active) + decimal_text((selected + 1) as nat)
        + reset_text() + bg + fg + "/"@ + decimal_text(codes.len()) + "]"@ + fg + " "@
        + code.language_name@ + (if code.deps_text@.len() == 0 {
        Seq::empty()
    } else {
        " "@ + ansi_fg_text(theme.muted) + code.deps_text@
    }) + reset_text() + "\n"@
}

/// How much of the code a card leaves out.
pub open spec fn more_lines_text(total: int, shown: int, theme: Theme) -> Seq<char> {
    if total > shown {
        ansi_fg_text(theme.muted) + "  ... "@ + decimal_text((total - shown) as nat)
            + " more lines"@ + reset_text() + "\n"@
    } else {
        Seq::empty()
    }
}

/// The line between code and output.
pub open spec fn separator_text(term_width: int, theme: Theme) -> Seq<char> {
    "\n"@ + ansi_fg_text(theme.muted) + repeated('─', less_by(term_width, 1) as nat)
        + reset_text() + "\n"@
}

/// The output of a block on its card, with the exit code once it is done.
pub open spec fn card_output(
    outputs: Map<CodeId, BlockOutput>,
    id: CodeId,
    theme: Theme,
) -> Seq<char> {
    if outputs.contains_key(id) {
        styled_lines(lines_view(outputs[id].screen@)) + card_result(outputs[id].task, theme)
    } else {
        Seq::empty()
    }
}

/// Key hints, shown while the block has not run.
pub open spec fn card_footer(
    outputs: Map<CodeId, BlockOutput>,
    id: CodeId,
    theme: Theme,
) -> Seq<char> {
    let key = ansi_style_text(theme.active_fg());
    let desc = ansi_style_text(theme.muted_fg());
    if outputs.contains_key(id) {
        Seq::empty()
    } else {
        "\n"@ + "  "@ + key + "j/k "@ + desc + "navigate  "@ + key + "enter "@ + desc + "run  "@
            + key + "q "@ + desc + "quit"@ + reset_text() + "\n"@
    }
}

/// The card of the selected block. `highlighted` is the excerpt of its code.
pub open spec fn card_text(
    codes: Seq<Code>,
    selected: int,
    outputs: Map<CodeId, BlockOutput>,
    visible: Seq<CodeId>,
    preview_lines: int,
    highlighted: Seq<Seq<(Seq<char>, Style)>>,
    term_width: int,
    theme: Theme,
) -> Seq<char> {
    let code = codes[selected];
    tabs_text(codes, outputs, theme, Some(code.id), visible) + "\n"@ + card_head(
        codes,
        selected,
        theme,
    ) + styled_lines(highlighted) + more_lines_text(
        text_lines(code.content@).len() as int,
        preview_lines,
        theme,
    ) + separator_text(term_width, theme) + card_output(outputs, code.id, theme) + card_footer(
        outputs,
        code.id,
        theme,
    )
}

/// The lines of code that a card shows.
pub open spec fn excerpt_text(content: Seq<char>, preview_lines: int) -> Seq<char> {
    let lines = text_lines(content);
    joined_text(
        lines.take(
            if preview_lines < lines.len() {
                preview_lines
            } else {
                lines.len() as int
            },
        ),
        "\n"@,
    )
}

/// The lines of code that a card shows.
pub fn excerpt(content: &str, preview_lines: usize) -> (text: String)
    ensures
        text@ == excerpt_text(content@, preview_lines as int),
{
    let lines = lines_of(content);
    join_first(&lines, preview_lines, "\n")
}

fn deps_note(code: &Code, theme: &Theme) -> (note: String)
    ensures
        note@ == (if code.deps_text@.len() == 0 {
            Seq::empty()
        } else {
            " "@ + ansi_fg_text(theme.muted) + code.deps_text@
        }),
{
    if code.deps_text.as_str().is_empty() {
        return String::new();
    }
    let mut note = " ".to_owned();
    note.append(ansi_fg(theme.muted).as_str());
    note.append(code.deps_text.as_str());
    note
}

fn render_card_head(codes: &[Code], selected: usize, theme: &Theme) -> (out: String)
    requires
        selected < codes@.len(),
    ensures
        out@ == card_head(codes@, selected as int, *theme),
{
    let code = &codes[selected];
    let bg = ansi_bg(theme.info_background);
    let fg = ansi_fg(theme.info_foreground);
    let mut out = bg.clone();
    out.append(fg.as_str());
    out.append(" [");
    out.append(ansi_fg(theme.active).as_str());
    out.append(decimal(selected as u64 + 1).as_str());
    out.append("\x1b[0m");
    out.append(bg.as_str());
    out.append(fg.as_str());
    out.append("/");
    out.append(decimal(codes.len() as u64).as_str());
    out.append("]");
    out.append(fg.as_str());
    out.append(" ");
    out.append(code.language_name.as_str());
    out.append(deps_note(code, theme).as_str());
    out.append("\x1b[0m");
    out.append("\n");
    out
}

fn render_more_lines(total: usize, shown: usize, theme: &Theme) -> (out: String)
    ensures
        out@ == more_lines_text(total as int, shown as int, *theme),
{
    if total <= shown {
        return String::new();
    }
    let mut out = ansi_fg(theme.muted);
    out.append("  ... ");
    out.append(decimal((total - shown) as u64).as_str());
    out.append(" more lines");
    out.append("\x1b[0m");
    out.append("\n");
    out
}

fn render_separator(term_width: u16, theme: &Theme) -> (out: String)
    ensures
        out@ == separator_text(term_width as int, *theme),
{
    let mut out = "\n".to_owned();
    out.append(ansi_fg(theme.muted).as_str());
    out.append(repeat_char('─', (term_width as usize).saturating_sub(1)).as_str());
    out.append("\x1b[0m");
    out.append("\n");
    out
}

/// The exit code of a finished block on its card.
pub open spec fn card_result(task: Task, theme: Theme) -> Seq<char> {
    if task.done && task.exit_code is Some {
        let code = task.exit_code->0;
        "\n  "@ + (if code == 0 {
            ansi_fg_text(theme.success) + "✔"@
        } else {
            ansi_fg_text(theme.error) + "✘"@
        }) + " exited with code "@ + signed_text(code as int) + reset_text() + "\n"@
    } else {
        Seq::empty()
    }
}

fn render_card_result(task: &Task, theme: &Theme) -> (out: String)
    ensures
        out@ == card_result(*task, *theme),
{
    if task.done {
        if let Some(code) = task.exit_code {
            let mark = if code == 0 {
                let mut mark = ansi_fg(theme.success);
                mark.append("✔");
                mark
            } else {
                let mut mark = ansi_fg(theme.error);
                mark.append("✘");
                mark
            };
            let mut out = "\n  ".to_owned();
            out.append(mark.as_str());
            out.append(" exited with code ");
            out.append(signed_decimal(code).as_str());
            out.append("\x1b[0m");
            out.append("\n");
            return out;
        }
    }
    String::new()
}

fn render_card_output(outputs: &HashMap<CodeId, BlockOutput>, id: CodeId, theme: &Theme) -> (out:
    String)
    ensures
        out@ == card_output(outputs@, id, *theme),
{
    match outputs.get(&id) {
        Some(output) => {
            let mut out = String::new();
            push_styled_lines(&mut out, output.screen.as_slice());
            assert(out@ =~= styled_lines(lines_view(output.screen@)));
            out.append(render_card_result(&output.task, theme).as_str());
            out
        },
        None => String::new(),
    }
}

fn render_card_footer(outputs: &HashMap<CodeId, BlockOutput>, id: CodeId, theme: &Theme) -> (out:
    String)
    ensures
        out@ == card_footer(outputs@, id, *theme),
{
    if outputs.contains_key(&id) {
        return String::new();
    }
    let key = ansi_style(theme.active_fg_style());
    let desc = ansi_style(theme.muted_style());
    let mut out = "\n".to_owned();
    out.append("  ");
    out.append(key.as_str());
    out.append("j/k ");
    out.append(desc.as_str());
    out.append("navigate  ");
    out.append(key.as_str());
    out.append("enter ");
    out.append(desc.as_str());
    out.append("run  ");
    out.append(key.as_str());
    out.append("q ");
    out.append(desc.as_str());
    out.append("quit");
    out.append("\x1b[0m");
    out.append("\n");
    out
}

/// The card of the selected block. `highlighted` is the excerpt of its code.
pub fn render_card(
    codes: &[Code],
    selected: usize,
    outputs: &HashMap<CodeId, BlockOutput>,
    visible: &[CodeId],
    preview_lines: usize,
    highlighted: &[Vec<Span>],
    term_width: u16,
    theme: &Theme,
) -> (out: String)
    requires
        selected < codes@.len(),
    ensures
        out@ == card_text(
            codes@,
            selected as int,
            outputs@,
            visible@,
            preview_lines as int,
            lines_view(highlighted@),
            term_width as int,
            *theme,
        ),
{
    let code = &codes[selected];
    let lines = lines_of(code.content.as_str());
    assert(strings_view(lines@).len() == lines@.len());
    let mut out = render_batch_tabs(codes, outputs, theme, Some(code.id), visible);
    out.append("\n");
    out.append(render_card_head(codes, selected, theme).as_str());
    push_styled_lines(&mut out, highlighted);
    out.append(render_more_lines(lines.len(), preview_lines, theme).as_str());
    out.append(render_separator(term_width, theme).as_str());
    out.append(render_card_output(outputs, code.id, theme).as_str());
    out.append(render_card_footer(outputs, code.id, theme).as_str());
    out
}

/// Moves up over what was drawn before and clears it.
pub open spec fn clear_text(previous: u16) -> Seq<char> {
    "\x1b["@ + decimal_text(previous as nat) + "A\r\x1b[J"@
}

/// Moves up over what was drawn before and clears it.
pub fn clear_sequence(previous: u16) -> (out: String)
    ensures
        out@ == clear_text(previous),
{
    let mut out = "\x1b[".to_owned();
    out.append(decimal(previous as u64).as_str());
    out.append("A\r\x1b[J");
    out
}

/// One file of the picker; the selected one is marked.
pub open spec fn picker_entry(
    place: int,
    display: Seq<char>,
    selected: bool,
    theme: Theme,
) -> Seq<char> {
    (if selected {
        ansi_fg_text(theme.active) + "▸ "@
    } else {
        ansi_fg_text(theme.foreground) + "  "@
    }) + decimal_text((place + 1) as nat) + "  "@ + display + reset_text() + "\r\n"@
}

/// The first `count` matches of the picker.
pub open spec fn picker_entries(picker: PickerState, count: int, theme: Theme) -> Seq<char>
    decreases count,
{
    if count <= 0 {
        Seq::empty()
    } else {
        let place = count - 1;
        picker_entries(picker, place, theme) + picker_entry(
            place,
            picker.files@[picker.matches@[place] as int].display@,
            place == picker.selected,
            theme,
        )
    }
}

/// The list of the picker, or a note that nothing matches.
pub open spec fn picker_list(picker: PickerState, theme: Theme) -> Seq<char> {
    if picker.matches@.len() == 0 {
        ansi_fg_text(theme.muted) + "  (no matching files)"@ + reset_text() + "\r\n"@
    } else {
        picker_entries(picker, picker.matches@.len() as int, theme)
    }
}

/// The query of the picker with the number of matches.
pub open spec fn picker_head(picker: PickerState, theme: Theme) -> Seq<char> {
    "File: "@ + (if picker.query@.len() > 0 {
        ansi_fg_text(theme.active) + picker.query@
    } else {
        ansi_fg_text(theme.muted) + "type to filter..."@
    }) + reset_text() + "  ("@ + decimal_text(picker.matches@.len()) + "/"@ + decimal_text(
        picker.files@.len(),
    ) + ")\r\n"@
}

/// A key hint of the picker.
pub open spec fn hint_text(key: Seq<char>, desc: Seq<char>, theme: Theme) -> Seq<char> {
    ansi_fg_text(theme.active) + key + reset_text() + " "@ + ansi_fg_text(theme.muted) + desc
        + reset_text()
}

/// The key hints of the picker.
pub open spec fn picker_footer(theme: Theme) -> Seq<char> {
    let gap = ansi_fg_text(theme.info_background) + "  "@ + reset_text();
    hint_text("↑↓"@, "move"@, theme) + gap + hint_text("↵"@, "open"@, theme) + gap + hint_text(
        "esc"@,
        "cancel"@,
        theme,
    ) + "\r\n"@
}

/// The file picker, drawn over `previous` lines.
pub open spec fn picker_text(picker: PickerState, previous: u16, theme: Theme) -> Seq<char> {
    (if previous > 0 {
        clear_text(previous)
    } else {
        "\r\x1b[J"@
    }) + picker_head(picker, theme) + picker_list(picker, theme) + picker_footer(theme)
}

/// Lines that the file picker takes: head, list and key hints.
pub open spec fn picker_lines(picker: PickerState) -> int {
    2 + if picker.matches@.len() == 0 {
        1
    } else {
        picker.matches@.len() as int
    }
}

fn picker_entry_text(place: usize, display: &str, selected: bool, theme: &Theme) -> (out: String)
    requires
        place < u64::MAX,
    ensures
        out@ == picker_entry(place as int, display@, selected, *theme),
{
    let mut out = if selected {
        let mut mark = ansi_fg(theme.active);
        mark.append("▸ ");
        mark
    } else {
        let mut mark = ansi_fg(theme.foreground);
        mark.append("  ");
        mark
    };
    out.append(decimal(place as u64 + 1).as_str());
    out.append("  ");
    out.append(display);
    out.append("\x1b[0m");
    out.append("\r\n");
    out
}

fn picker_list_text(picker: &PickerState, theme: &Theme) -> (out: String)
    requires
        picker.wf(),
    ensures
        out@ == picker_list(*picker, *theme),
{
    if picker.matches.len() == 0 {
        let mut out = ansi_fg(theme.muted);
        out.append("  (no matching files)");
        out.append("\x1b[0m");
        out.append("\r\n");
        return out;
    }
    let mut out = String::new();
    let mut i: usize = 0;
    let count: usize = picker.matches.len();
    let files: usize = picker.files.len();
    proof {
        crate::seqs::lemma_indices_where(
            files as nat,
            |i: int| crate::text::matches_term(picker.files@[i].display@, picker.query@),
        );
    }
    while i < count
        invariant
            i <= count,
            count == picker.matches@.len(),
            forall|k: int|
                0 <= k < picker.matches@.len() ==> (#[trigger] picker.matches@[k])
                    < picker.files@.len(),
            out@ == picker_entries(*picker, i as int, *theme),
        decreases count - i,
    {
        let file: usize = picker.matches[i];
        let entry = picker_entry_text(
            i,
            picker.files[file].display.as_str(),
            i == picker.selected,
            theme,
        );
        out.append(entry.as_str());
        i += 1;
    }
    out
}

fn picker_head_text(picker: &PickerState, theme: &Theme) -> (out: String)
    ensures
        out@ == picker_head(*picker, *theme),
{
    let query = if picker.query.as_str().is_empty() {
        let mut query = ansi_fg(theme.muted);
        query.append("type to filter...");
        query
    } else {
        let mut query = ansi_fg(theme.active);
        query.append(picker.query.as_str());
        query
    };
    let mut out = "File: ".to_owned();
    out.append(query.as_str());
    out.append("\x1b[0m");
    out.append("  (");
    out.append(decimal(picker.matches.len() as u64).as_str());
    out.append("/");
    out.append(decimal(picker.files.len() as u64).as_str());
    out.append(")\r\n");
    out
}

fn hint(key: &str, desc: &str, theme: &Theme) -> (out: String)
    ensures
        out@ == hint_text(key@, desc@, *theme),
{
    let mut out = ansi_fg(theme.active);
    out.append(key);
    out.append("\x1b[0m");
    out.append(" ");
    out.append(ansi_fg(theme.muted).as_str());
    out.append(desc);
    out.append("\x1b[0m");
    out
}

fn picker_footer_text(theme: &Theme) -> (out: String)
    ensures
        out@ == picker_footer(*theme),
{
    let mut gap = ansi_fg(theme.info_background);
    gap.append("  ");
    gap.append("\x1b[0m");
    let mut out = hint("↑↓", "move", theme);
    out.append(gap.as_str());
    out.append(hint("↵", "open", theme).as_str());
    out.append(gap.as_str());
    out.append(hint("esc", "cancel", theme).as_str());
    out.append("\r\n");
    out
}

/// The file picker, drawn over `previous` lines, and the lines it takes.
pub fn render_picker(picker: &PickerState, previous: u16, theme: &Theme) -> (drawn: (String, u16))
    requires
        picker.wf(),
    ensures
        drawn.0@ == picker_text(*picker, previous, *theme),
        drawn.1 == fit_u16(picker_lines(*picker)),
{
    let mut out = if previous > 0 {
        clear_sequence(previous)
    } else {
        "\r\x1b[J".to_owned()
    };
    out.append(picker_head_text(picker, theme).as_str());
    out.append(picker_list_text(picker, theme).as_str());
    out.append(picker_footer_text(theme).as_str());
    let listed: usize = picker.matches.len().max(1);
    let lines = to_u16(listed.saturating_add(2));
    (out, lines)
}

} // verus!
