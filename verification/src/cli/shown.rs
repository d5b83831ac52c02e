//! What transcripts, cards and the file picker tell.

use vstd::prelude::*;

use super::render::{
    bare_lines, card_footer, card_head, card_output, card_result, clear_text, excerpt_text,
    first_with_id, label_text, more_lines_text, picker_entries, picker_entry, plain_transcript,
    reset_text, result_text, separator_text, styled_lines, tab_symbol, tab_text, tabs_text,
    BlockOutput,
};
use crate::code::{Code, CodeId};
use crate::picker::PickerState;
use crate::style::{ansi_bg_text, ansi_fg_text, line_text, lines_view, Color, Style};
use crate::task::Task;
use crate::text::{
    decimal_text, decimal_value, law_digits_stand_for_the_number, lemma_breaks_add,
    lemma_digits_do_not_break, line_breaks, signed_text,
};
use crate::theme::Theme;

verus! {

/// A text starts with another.
pub open spec fn starts_with(s: Seq<char>, start: Seq<char>) -> bool {
    start.len() <= s.len() && s.take(start.len() as int) == start
}

/// A text ends with another.
pub open spec fn ends_with(s: Seq<char>, end: Seq<char>) -> bool {
    end.len() <= s.len() && s.skip(s.len() - end.len()) == end
}

/// A transcript begins by naming the block and ends with its exit code, or tells that it
/// did not start. Between them stand the lines of its screen.
pub proof fn law_transcripts_tell_how_a_block_ended(
    codes: Seq<Code>,
    outputs: Map<CodeId, BlockOutput>,
    id: CodeId,
)
    requires
        outputs.contains_key(id),
    ensures
        ({
            let text = plain_transcript(codes, outputs, id);
            let label = label_text(codes, id);
            let screen = bare_lines(lines_view(outputs[id].screen@));
            let head = "==> "@ + label + " [block "@ + decimal_text(id as nat) + "]\n"@;
            &&& starts_with(text, head + screen)
            &&& outputs[id].task.exit_code matches Some(code) ==> ends_with(
                text,
                label + " exited with code "@ + signed_text(code as int) + "\n"@,
            )
            &&& outputs[id].task.exit_code is None ==> ends_with(
                text,
                label + " failed to start\n"@,
            )
        }),
{
    let text = plain_transcript(codes, outputs, id);
    let label = label_text(codes, id);
    let screen = bare_lines(lines_view(outputs[id].screen@));
    let head = "==> "@ + label + " [block "@ + decimal_text(id as nat) + "]\n"@;
    assert(text.take((head + screen).len() as int) =~= head + screen);
    match outputs[id].task.exit_code {
        Some(code) => {
            let end = label + " exited with code "@ + signed_text(code as int) + "\n"@;
            assert(text.skip(text.len() - end.len()) =~= end);
        },
        None => {
            let end = label + " failed to start\n"@;
            assert(text.skip(text.len() - end.len()) =~= end);
        },
    }
}

/// Each line of a screen is written with a line break behind it, in order.
pub proof fn law_lines_are_written_in_order(
    lines: Seq<Seq<(Seq<char>, Style)>>,
    more: Seq<Seq<(Seq<char>, Style)>>,
    line: Seq<(Seq<char>, Style)>,
)
    ensures
        bare_lines(lines + more) == bare_lines(lines) + bare_lines(more),
        bare_lines(seq![line]) == line_text(line).push('\n'),
    decreases more.len(),
{
    reveal_strlit("\n");
    assert(seq![line].drop_last() =~= Seq::empty());
    assert(bare_lines(Seq::<Seq<(Seq<char>, Style)>>::empty()) =~= Seq::empty());
    assert(seq![line].last() == line);
    assert(bare_lines(seq![line]) =~= line_text(line).push('\n'));
    if more.len() == 0 {
        assert(lines + more =~= lines);
        assert(bare_lines(lines) + bare_lines(more) =~= bare_lines(lines));
    } else {
        law_lines_are_written_in_order(lines, more.drop_last(), line);
        assert((lines + more).drop_last() =~= lines + more.drop_last());
        assert((lines + more).last() == more.last());
        assert(bare_lines(lines + more) =~= bare_lines(lines) + bare_lines(more));
    }
}

/// A tab, a result and a card show a tick exactly for a block that exited with zero.
pub proof fn law_ticks_are_for_successes(
    outputs: Map<CodeId, BlockOutput>,
    id: CodeId,
    task: Task,
    theme: Theme,
)
    ensures
        outputs.contains_key(id) ==> (tab_symbol(outputs, id) == seq!['✔'] <==> (
        outputs[id].task.done && outputs[id].task.exit_code == Some(0i32))),
        outputs.contains_key(id) ==> (tab_symbol(outputs, id) == seq!['✘'] <==> (
        outputs[id].task.done && outputs[id].task.exit_code != Some(0i32))),
        outputs.contains_key(id) ==> (tab_symbol(outputs, id) == seq!['●']
            <==> !outputs[id].task.done),
        !outputs.contains_key(id) ==> tab_symbol(outputs, id) == seq!['·'],
        task.exit_code == Some(0i32) ==> starts_with(
            result_text(task.exit_code, theme),
            ansi_fg_text(theme.success) + seq!['✔'],
        ),
        task.exit_code != Some(0i32) ==> starts_with(
            result_text(task.exit_code, theme),
            ansi_fg_text(theme.error) + seq!['✘'],
        ),
        task.exit_code matches Some(code) ==> ends_with(
            result_text(task.exit_code, theme),
            signed_text(code as int),
        ),
        card_result(task, theme).len() > 0 <==> task.done && task.exit_code is Some,
        task.done && task.exit_code is Some ==> ends_with(
            card_result(task, theme),
            signed_text(task.exit_code->0 as int) + reset_text() + seq!['\n'],
        ),
{
    reveal_strlit("✔");
    reveal_strlit("✘");
    reveal_strlit("●");
    reveal_strlit("·");
    reveal_strlit("\n");
    reveal_strlit(" exited with code ");
    reveal_strlit("exited with code 0");
    assert("✔"@ =~= seq!['✔']);
    assert("✘"@ =~= seq!['✘']);
    assert("●"@ =~= seq!['●']);
    assert("·"@ =~= seq!['·']);
    assert("✔"@[0] == '✔' && "✘"@[0] == '✘' && "●"@[0] == '●' && "·"@[0] == '·');
    let text = result_text(task.exit_code, theme);
    if task.exit_code == Some(0i32) {
        assert(text.take((ansi_fg_text(theme.success) + seq!['✔']).len() as int)
            =~= ansi_fg_text(theme.success) + seq!['✔']);
        assert(signed_text(0) =~= seq!['0']);
        assert("exited with code 0"@[17] == '0');
        assert(text.skip(text.len() - 1) =~= seq!['0']);
    } else {
        assert(text.take((ansi_fg_text(theme.error) + seq!['✘']).len() as int) =~= ansi_fg_text(
            theme.error,
        ) + seq!['✘']);
        if let Some(code) = task.exit_code {
            assert(text.skip(text.len() - signed_text(code as int).len()) =~= signed_text(
                code as int,
            ));
        }
    }
    if task.done && task.exit_code is Some {
        let shown = card_result(task, theme);
        let end = signed_text(task.exit_code->0 as int) + reset_text() + seq!['\n'];
        assert(shown.skip(shown.len() - end.len()) =~= end);
    }
}

/// The lines that a card leaves out are told where there are any: as many as there are
/// more than it shows.
pub proof fn law_hidden_lines_are_told(total: int, shown: int, theme: Theme)
    requires
        0 <= shown,
        0 <= total,
    ensures
        more_lines_text(total, shown, theme).len() == 0 <==> total <= shown,
        total > shown ==> {
            let text = more_lines_text(total, shown, theme);
            let from = ansi_fg_text(theme.muted).len() + "  ... "@.len();
            let to = from + decimal_text((total - shown) as nat).len();
            &&& to <= text.len()
            &&& decimal_value(text.subrange(from as int, to as int)) + shown == total
        },
{
    reveal_strlit("  ... ");
    reveal_strlit("\n");
    if total > shown {
        let text = more_lines_text(total, shown, theme);
        let digits = decimal_text((total - shown) as nat);
        law_digits_stand_for_the_number((total - shown) as nat);
        let from = ansi_fg_text(theme.muted).len() + "  ... "@.len();
        assert(text.subrange(from as int, (from + digits.len()) as int) =~= digits);
    }
}

/// The line below a card leaves the last column free.
pub proof fn law_the_separator_fits(term_width: int, theme: Theme)
    requires
        term_width > 0,
    ensures
        ({
            let text = separator_text(term_width, theme);
            let from = 1 + ansi_fg_text(theme.muted).len();
            &&& from + term_width - 1 <= text.len()
            &&& forall|i: int|
                from <= i < from + term_width - 1 ==> #[trigger] text[i] == '─'
            &&& text.len() == from + term_width - 1 + reset_text().len() + 1
        }),
{
    reveal_strlit("\n");
}

/// What was drawn is cleared by going up as many lines as were counted.
pub proof fn law_clearing_goes_up_by_the_lines_drawn(previous: u16)
    ensures
        ({
            let text = clear_text(previous);
            let digits = decimal_text(previous as nat).len();
            &&& text.len() == 2 + digits + 5
            &&& text[0] == '\x1b'
            &&& text[1] == '['
            &&& decimal_value(text.subrange(2, 2 + digits as int)) == previous
            &&& text[2 + digits as int] == 'A'
            &&& text.last() == 'J'
        }),
{
    reveal_strlit("\x1b[");
    reveal_strlit("A\r\x1b[J");
    let text = clear_text(previous);
    let digits = decimal_text(previous as nat);
    law_digits_stand_for_the_number(previous as nat);
    assert(text.subrange(2, 2 + digits.len() as int) =~= digits);
}

proof fn lemma_colors_do_not_break(color: Color)
    ensures
        line_breaks(ansi_fg_text(color)) == 0,
{
    reveal_strlit("\x1b[38;2;");
    reveal_strlit("\x1b[38;5;");
    reveal_strlit("\x1b[39m");
    reveal_strlit(";");
    reveal_strlit("m");
    lemma_none("\x1b[38;2;"@);
    lemma_none("\x1b[38;5;"@);
    lemma_none("\x1b[39m"@);
    lemma_none(";"@);
    lemma_none("m"@);
    match color {
        Color::Rgb(r, g, b) => {
            lemma_digits_do_not_break(r as nat);
            lemma_digits_do_not_break(g as nat);
            lemma_digits_do_not_break(b as nat);
            let a = "\x1b[38;2;"@;
            lemma_breaks_add(a, decimal_text(r as nat));
            let a = a + decimal_text(r as nat);
            lemma_breaks_add(a, ";"@);
            let a = a + ";"@;
            lemma_breaks_add(a, decimal_text(g as nat));
            let a = a + decimal_text(g as nat);
            lemma_breaks_add(a, ";"@);
            let a = a + ";"@;
            lemma_breaks_add(a, decimal_text(b as nat));
            lemma_breaks_add(a + decimal_text(b as nat), "m"@);
        },
        Color::Indexed(i) => {
            lemma_digits_do_not_break(i as nat);
            lemma_breaks_add("\x1b[38;5;"@, decimal_text(i as nat));
            lemma_breaks_add("\x1b[38;5;"@ + decimal_text(i as nat), "m"@);
        },
        _ => {},
    }
}

proof fn lemma_none(s: Seq<char>)
    requires
        forall|i: int| 0 <= i < s.len() ==> #[trigger] s[i] != '\n',
    ensures
        line_breaks(s) == 0,
    decreases s.len(),
{
    if s.len() > 0 {
        let less = s.drop_last();
        assert forall|i: int| 0 <= i < less.len() implies #[trigger] less[i] != '\n' by {
            assert(s[i] != '\n');
        }
        lemma_none(less);
        assert(s[s.len() - 1] != '\n');
    }
}

proof fn lemma_entry_breaks(place: int, display: Seq<char>, selected: bool, theme: Theme)
    requires
        place >= 0,
        line_breaks(display) == 0,
    ensures
        line_breaks(picker_entry(place, display, selected, theme)) == 1,
{
    reveal_strlit("▸ ");
    reveal_strlit("  ");
    reveal_strlit("\x1b[0m");
    reveal_strlit("\r\n");
    lemma_none("▸ "@);
    lemma_none("  "@);
    lemma_none("\x1b[0m"@);
    lemma_none("\r\n"@.drop_last());
    assert(line_breaks("\r\n"@) == 1);
    lemma_colors_do_not_break(theme.active);
    lemma_colors_do_not_break(theme.foreground);
    lemma_breaks_add(ansi_fg_text(theme.active), "▸ "@);
    lemma_breaks_add(ansi_fg_text(theme.foreground), "  "@);
    let a = if selected {
        ansi_fg_text(theme.active) + "▸ "@
    } else {
        ansi_fg_text(theme.foreground) + "  "@
    };
    let digits = decimal_text((place + 1) as nat);
    lemma_digits_do_not_break((place + 1) as nat);
    lemma_breaks_add(a, digits);
    lemma_breaks_add(a + digits, "  "@);
    lemma_breaks_add(a + digits + "  "@, display);
    lemma_breaks_add(a + digits + "  "@ + display, reset_text());
    lemma_breaks_add(a + digits + "  "@ + display + reset_text(), "\r\n"@);
}

/// The file list shows one line for each match, with its place counted from one.
pub proof fn law_every_match_has_its_line(picker: PickerState, count: int, theme: Theme)
    requires
        0 <= count <= picker.matches@.len(),
        forall|i: int|
            0 <= i < picker.files@.len() ==> line_breaks((#[trigger] picker.files@[i]).display@)
                == 0,
        forall|k: int|
            0 <= k < picker.matches@.len() ==> (#[trigger] picker.matches@[k])
                < picker.files@.len(),
    ensures
        line_breaks(picker_entries(picker, count, theme)) == count,
    decreases count,
{
    if count > 0 {
        let place = count - 1;
        law_every_match_has_its_line(picker, place, theme);
        let file = picker.matches@[place] as int;
        lemma_entry_breaks(
            place,
            picker.files@[file].display@,
            place == picker.selected,
            theme,
        );
        lemma_breaks_add(
            picker_entries(picker, place, theme),
            picker_entry(
                place,
                picker.files@[file].display@,
                place == picker.selected,
                theme,
            ),
        );
    }
}

/// The selected file, and no other, stands behind an arrow; each line shows the place
/// and the name of its file.
pub proof fn law_entries_show_the_file(
    place: int,
    display: Seq<char>,
    selected: bool,
    theme: Theme,
)
    requires
        place >= 0,
    ensures
        ({
            let text = picker_entry(place, display, selected, theme);
            let from = ansi_fg_text(
                if selected {
                    theme.active
                } else {
                    theme.foreground
                },
            ).len() as int;
            let digits = decimal_text((place + 1) as nat).len() as int;
            &&& text.len() >= from + 4 + digits + display.len()
            &&& text[from] == (if selected {
                '▸'
            } else {
                ' '
            })
            &&& decimal_value(text.subrange(from + 2, from + 2 + digits)) == place + 1
            &&& text.subrange(from + 4 + digits, from + 4 + digits + display.len()) == display
        }),
{
    reveal_strlit("▸ ");
    reveal_strlit("  ");
    let text = picker_entry(place, display, selected, theme);
    let color = ansi_fg_text(
        if selected {
            theme.active
        } else {
            theme.foreground
        },
    );
    let from = color.len() as int;
    let number = decimal_text((place + 1) as nat);
    let digits = number.len() as int;
    law_digits_stand_for_the_number((place + 1) as nat);
    assert(text.subrange(from + 2, from + 2 + digits) =~= number);
    assert(text.subrange(from + 4 + digits, from + 4 + digits + display.len()) =~= display);
}

/// A block goes by its name, and by its number where it has none.
pub proof fn law_blocks_go_by_their_name(codes: Seq<Code>, i: int)
    requires
        crate::code::valid_codes(codes),
        0 <= i < codes.len(),
    ensures
        codes[i].name@.len() > 0 ==> label_text(codes, codes[i].id) == codes[i].name@,
        codes[i].name@.len() == 0 ==> crate::text::decimal_value(label_text(codes, codes[i].id))
            == codes[i].id,
{
    let id = codes[i].id;
    assert(crate::code::has_block(codes, id));
    assert forall|j: int| 0 <= j < i implies (#[trigger] codes[j]).id != id by {
        if codes[j].id == id {
            assert(i == j);
        }
    }
    assert(first_with_id(codes, id) == i);
    crate::text::law_digits_stand_for_the_number(id as nat);
}

/// Blocks that run side by side have tabs, which tell those that wait, run, succeeded and
/// failed apart; the selected one stands out.
pub proof fn law_tabs_show_the_state(
    codes: Seq<Code>,
    outputs: Map<CodeId, BlockOutput>,
    theme: Theme,
    id: CodeId,
    selected: CodeId,
)
    ensures
        !outputs.contains_key(id) ==> tab_symbol(outputs, id) == seq!['·'],
        outputs.contains_key(id) && !outputs[id].task.done ==> tab_symbol(outputs, id) == seq![
            '●',
        ],
        outputs.contains_key(id) && outputs[id].task.done && outputs[id].task.exit_code == Some(
            0i32,
        ) ==> tab_symbol(outputs, id) == seq!['✔'],
        outputs.contains_key(id) && outputs[id].task.done && outputs[id].task.exit_code != Some(
            0i32,
        ) ==> tab_symbol(outputs, id) == seq!['✘'],
        tabs_text(codes, outputs, theme, Some(selected), seq![id]).len() == 0,
        crate::text::contains_text(
            tab_text(codes, outputs, theme, Some(id), id),
            ansi_fg_text(theme.active),
        ),
        selected != id ==> crate::text::contains_text(
            tab_text(codes, outputs, theme, Some(selected), id),
            ansi_fg_text(theme.muted),
        ),
        crate::text::contains_text(
            tab_text(codes, outputs, theme, Some(selected), id),
            label_text(codes, id),
        ),
{
    reveal_strlit("·");
    reveal_strlit("●");
    reveal_strlit("✔");
    reveal_strlit("✘");
    assert(tab_symbol(outputs, id).len() == 1);
    assert(tab_symbol(outputs, id) =~= seq![tab_symbol(outputs, id)[0]]);
    let behind = "["@ + label_text(codes, id) + " "@ + tab_symbol(outputs, id) + "]"@
        + reset_text();
    assert(tab_text(codes, outputs, theme, Some(id), id) =~= " "@ + ansi_fg_text(theme.active)
        + behind);
    crate::text::lemma_stands_between(" "@, ansi_fg_text(theme.active), behind);
    if selected != id {
        assert(tab_text(codes, outputs, theme, Some(selected), id) =~= " "@ + ansi_fg_text(
            theme.muted,
        ) + behind);
        crate::text::lemma_stands_between(" "@, ansi_fg_text(theme.muted), behind);
    }
    let color = if selected == id {
        theme.active
    } else {
        theme.muted
    };
    let before = " "@ + ansi_fg_text(color) + "["@;
    let rest = " "@ + tab_symbol(outputs, id) + "]"@ + reset_text();
    assert(tab_text(codes, outputs, theme, Some(selected), id) =~= before + label_text(codes, id)
        + rest);
    crate::text::lemma_stands_between(before, label_text(codes, id), rest);
}

/// The card of a block begins with its place among all blocks and its language.
pub proof fn law_cards_show_the_place(codes: Seq<Code>, selected: int, theme: Theme)
    requires
        0 <= selected < codes.len(),
    ensures
        ({
            let head = card_head(codes, selected, theme);
            &&& crate::text::contains_text(
                head,
                ansi_fg_text(theme.active) + decimal_text((selected + 1) as nat) + reset_text(),
            )
            &&& crate::text::contains_text(head, "/"@ + decimal_text(codes.len()) + "]"@)
            &&& crate::text::contains_text(head, codes[selected].language_name@)
            &&& crate::text::contains_text(head, codes[selected].deps_text@)
        }),
{
    let code = codes[selected];
    let bg = ansi_bg_text(theme.info_background);
    let fg = ansi_fg_text(theme.info_foreground);
    let active = ansi_fg_text(theme.active);
    let number = decimal_text((selected + 1) as nat);
    let total = decimal_text(codes.len());
    let deps = if code.deps_text@.len() == 0 {
        Seq::empty()
    } else {
        " "@ + ansi_fg_text(theme.muted) + code.deps_text@
    };
    let upto_place = bg + fg + " ["@ + active + number + reset_text();
    let upto_total = upto_place + bg + fg + "/"@ + total + "]"@;
    let upto_name = upto_total + fg + " "@ + code.language_name@;
    let upto_deps = upto_name + deps;
    let head = card_head(codes, selected, theme);
    assert(head == upto_deps + reset_text() + "\n"@);
    lemma_three_at_the_end(bg + fg + " ["@, active, number, reset_text());
    lemma_three_at_the_end(upto_place + bg + fg, "/"@, total, "]"@);
    lemma_contained_at_the_end(upto_total + fg + " "@, code.language_name@);
    if code.deps_text@.len() == 0 {
        crate::text::law_contained_texts_stand_somewhere(upto_deps, Seq::empty());
        assert(code.deps_text@ =~= Seq::empty());
    } else {
        assert(upto_deps =~= (upto_name + (" "@ + ansi_fg_text(theme.muted))) + code.deps_text@);
        lemma_contained_at_the_end(
            upto_name + (" "@ + ansi_fg_text(theme.muted)),
            code.deps_text@,
        );
    }
    let place = active + number + reset_text();
    crate::text::lemma_contained_in_more(upto_place, bg, place);
    crate::text::lemma_contained_in_more(upto_place + bg, fg, place);
    crate::text::lemma_contained_in_more(upto_place + bg + fg, "/"@, place);
    crate::text::lemma_contained_in_more(upto_place + bg + fg + "/"@, total, place);
    crate::text::lemma_contained_in_more(upto_place + bg + fg + "/"@ + total, "]"@, place);
    let count = "/"@ + total + "]"@;
    lemma_passed_along(upto_total, fg, code.language_name@, deps, "\n"@, place);
    lemma_passed_along(upto_total, fg, code.language_name@, deps, "\n"@, count);
    crate::text::lemma_contained_in_more(upto_name, deps, code.language_name@);
    crate::text::lemma_contained_in_more(upto_deps, reset_text(), code.language_name@);
    crate::text::lemma_contained_in_more(upto_deps + reset_text(), "\n"@, code.language_name@);
    crate::text::lemma_contained_in_more(upto_deps, reset_text(), code.deps_text@);
    crate::text::lemma_contained_in_more(upto_deps + reset_text(), "\n"@, code.deps_text@);
}

proof fn lemma_passed_along(
    s: Seq<char>,
    fg: Seq<char>,
    name: Seq<char>,
    deps: Seq<char>,
    end: Seq<char>,
    t: Seq<char>,
)
    requires
        crate::text::contains_text(s, t),
    ensures
        crate::text::contains_text(s + fg + " "@ + name + deps + reset_text() + end, t),
{
    crate::text::lemma_contained_in_more(s, fg, t);
    crate::text::lemma_contained_in_more(s + fg, " "@, t);
    crate::text::lemma_contained_in_more(s + fg + " "@, name, t);
    crate::text::lemma_contained_in_more(s + fg + " "@ + name, deps, t);
    crate::text::lemma_contained_in_more(s + fg + " "@ + name + deps, reset_text(), t);
    crate::text::lemma_contained_in_more(s + fg + " "@ + name + deps + reset_text(), end, t);
}

proof fn lemma_contained_at_the_end(s: Seq<char>, t: Seq<char>)
    ensures
        crate::text::contains_text(s + t, t),
{
    assert(s + t =~= s + t + Seq::empty());
    crate::text::lemma_stands_between(s, t, Seq::empty());
}

proof fn lemma_three_at_the_end(s: Seq<char>, a: Seq<char>, b: Seq<char>, c: Seq<char>)
    ensures
        crate::text::contains_text(s + a + b + c, a + b + c),
{
    assert(s + a + b + c =~= s + (a + b + c));
    lemma_contained_at_the_end(s, a + b + c);
}

/// A card shows the keys while its block has no output, and the output from then on.
pub proof fn law_cards_show_keys_before_output(
    outputs: Map<CodeId, BlockOutput>,
    id: CodeId,
    theme: Theme,
)
    ensures
        outputs.contains_key(id) <==> card_footer(outputs, id, theme).len() == 0,
        !outputs.contains_key(id) ==> card_output(outputs, id, theme).len() == 0,
        outputs.contains_key(id) && !outputs[id].task.done ==> card_output(outputs, id, theme)
            == styled_lines(crate::style::lines_view(outputs[id].screen@)),
{
    reveal_strlit("\n");
    if outputs.contains_key(id) && !outputs[id].task.done {
        assert(card_output(outputs, id, theme) =~= styled_lines(
            crate::style::lines_view(outputs[id].screen@),
        ));
    }
}

/// An excerpt holds the first lines of the code, one below the other, and no more than
/// there are.
pub proof fn law_excerpts_begin_the_code(content: Seq<char>, n: int)
    requires
        n >= 1,
    ensures
        ({
            let lines = crate::text::text_lines(content);
            &&& excerpt_text(content, 0).len() == 0
            &&& n < lines.len() ==> excerpt_text(content, n + 1) == excerpt_text(content, n)
                + seq!['\n'] + lines[n]
            &&& lines.len() > 0 ==> excerpt_text(content, 1) == lines[0]
            &&& n >= lines.len() ==> excerpt_text(content, n) == excerpt_text(
                content,
                lines.len() as int,
            )
        }),
{
    reveal_strlit("\n");
    assert("\n"@ =~= seq!['\n']);
    let lines = crate::text::text_lines(content);
    assert(lines.take(0) =~= Seq::empty());
    if n < lines.len() {
        assert(lines.take(n + 1).drop_last() =~= lines.take(n));
        assert(lines.take(n + 1).last() == lines[n]);
    }
    if lines.len() > 0 {
        assert(lines.take(1) =~= seq![lines[0]]);
        crate::text::law_parts_are_joined_in_order(Seq::empty(), lines[0], "\n"@);
    }
}

} // verus!
