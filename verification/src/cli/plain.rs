//! Output that goes to a file or a pipe: text alone, each batch once.

use vstd::prelude::*;
use vstd::utf8::{
    encode_scalar, encode_utf8, last_continuation_byte, leading_byte_width_1, leading_byte_width_2,
    leading_byte_width_3, leading_byte_width_4, second_last_continuation_byte,
    third_last_continuation_byte,
};

use super::app::{transcripts, App};
use super::line_counter::no_escape;
use super::render::{bare_lines, first_with_id, label_text, plain_transcript, BlockOutput};
use crate::code::{has_block, Code, CodeId};
use crate::scheduler::joined;
use crate::style::{line_text, lines_view, Style};
use crate::text::{decimal_text, signed_text};
use crate::theme::Theme;

verus! {

/// A text without the character that begins a terminal sequence.
pub open spec fn is_plain(s: Seq<char>) -> bool {
    forall|i: int| 0 <= i < s.len() ==> #[trigger] s[i] != '\x1b'
}

/// The names of a document's blocks are plain.
pub open spec fn plain_names(codes: Seq<Code>) -> bool {
    forall|i: int| 0 <= i < codes.len() ==> is_plain((#[trigger] codes[i]).name@)
}

/// The runs of a line are plain.
pub open spec fn plain_line(line: Seq<(Seq<char>, Style)>) -> bool {
    forall|i: int| 0 <= i < line.len() ==> is_plain((#[trigger] line[i]).0)
}

/// The screens of blocks show plain text.
pub open spec fn plain_screens(outputs: Map<CodeId, BlockOutput>) -> bool {
    forall|id: CodeId, i: int|
        outputs.contains_key(id) && 0 <= i < outputs[id].screen@.len() ==> plain_line(
            #[trigger] lines_view(outputs[id].screen@)[i],
        )
}

proof fn lemma_scalar_without_escape(c: u32)
    requires
        c != 0x1b,
    ensures
        no_escape(encode_scalar(c)),
{
    let b1 = leading_byte_width_1(c);
    let b2 = leading_byte_width_2(c);
    let b3 = leading_byte_width_3(c);
    let b4 = leading_byte_width_4(c);
    let c1 = last_continuation_byte(c);
    let c2 = second_last_continuation_byte(c);
    let c3 = third_last_continuation_byte(c);
    assert(c <= 0x7f && c != 0x1b ==> (c & 0x7f) as u8 != 0x1b) by (bit_vector);
    assert(0xC0u8 | ((c >> 6) & 0x1F) as u8 != 0x1b) by (bit_vector);
    assert(0xE0u8 | ((c >> 12) & 0x0F) as u8 != 0x1b) by (bit_vector);
    assert(0xF0u8 | ((c >> 18) & 0x07) as u8 != 0x1b) by (bit_vector);
    assert(0x80u8 | (c & 0x3F) as u8 != 0x1b) by (bit_vector);
    assert(0x80u8 | ((c >> 6) & 0x3F) as u8 != 0x1b) by (bit_vector);
    assert(0x80u8 | ((c >> 12) & 0x3F) as u8 != 0x1b) by (bit_vector);
    assert(b2 != 0x1b && b3 != 0x1b && b4 != 0x1b && c1 != 0x1b && c2 != 0x1b && c3 != 0x1b);
    assert(c <= 0x7f ==> b1 != 0x1b);
}

/// Plain text is encoded without the escape byte.
pub proof fn law_plain_text_has_no_escape_byte(s: Seq<char>)
    requires
        is_plain(s),
    ensures
        no_escape(encode_utf8(s)),
    decreases s.len(),
{
    if s.len() > 0 {
        let rest = s.drop_first();
        assert forall|i: int| 0 <= i < rest.len() implies #[trigger] rest[i] != '\x1b' by {
            assert(s[i + 1] != '\x1b');
        }
        law_plain_text_has_no_escape_byte(rest);
        assert(s[0] != '\x1b');
        vstd::utf8::char_is_scalar(s[0]);
        vstd::utf8::char_u32_cast(s[0], s[0] as u32);
        assert(0x1bu32 as char == '\x1b');
        assert(s[0] as u32 != 0x1b);
        lemma_scalar_without_escape(s[0] as u32);
        let first = encode_scalar(s[0] as u32);
        let more = encode_utf8(rest);
        assert forall|i: int| 0 <= i < (first + more).len() implies #[trigger] (first + more)[i]
            != 0x1b by {
            if i < first.len() {
                assert(first[i] != 0x1b);
            } else {
                assert(more[i - first.len()] != 0x1b);
            }
        }
    }
}

proof fn lemma_plain_joined(a: Seq<char>, b: Seq<char>)
    requires
        is_plain(a),
        is_plain(b),
    ensures
        is_plain(a + b),
{
}

proof fn lemma_digits_are_plain(n: nat)
    ensures
        is_plain(decimal_text(n)),
    decreases n,
{
    if n >= 10 {
        lemma_digits_are_plain(n / 10);
    }
}

proof fn lemma_first_exists(codes: Seq<Code>, id: CodeId, i: int)
    requires
        0 <= i < codes.len(),
        codes[i].id == id,
    ensures
        0 <= first_with_id(codes, id) < codes.len(),
    decreases i,
{
    if exists|j: int| 0 <= j < i && (#[trigger] codes[j]).id == id {
        let j = choose|j: int| 0 <= j < i && (#[trigger] codes[j]).id == id;
        lemma_first_exists(codes, id, j);
    }
}

proof fn lemma_label_is_plain(codes: Seq<Code>, id: CodeId)
    requires
        plain_names(codes),
    ensures
        is_plain(label_text(codes, id)),
{
    lemma_digits_are_plain(id as nat);
    if has_block(codes, id) {
        let i = choose|i: int| 0 <= i < codes.len() && (#[trigger] codes[i]).id == id;
        lemma_first_exists(codes, id, i);
        assert(is_plain(codes[first_with_id(codes, id)].name@));
        lemma_digits_are_plain(codes[first_with_id(codes, id)].id as nat);
    }
}

proof fn lemma_line_is_plain(line: Seq<(Seq<char>, Style)>)
    requires
        plain_line(line),
    ensures
        is_plain(line_text(line)),
    decreases line.len(),
{
    if line.len() > 0 {
        let before = line.drop_last();
        assert forall|i: int| 0 <= i < before.len() implies is_plain((#[trigger] before[i]).0) by {
            assert(before[i] == line[i]);
        }
        lemma_line_is_plain(before);
        assert(is_plain(line[line.len() - 1].0));
        lemma_plain_joined(line_text(before), line.last().0);
    }
}

proof fn lemma_lines_are_plain(lines: Seq<Seq<(Seq<char>, Style)>>)
    requires
        forall|i: int| 0 <= i < lines.len() ==> plain_line(#[trigger] lines[i]),
    ensures
        is_plain(bare_lines(lines)),
    decreases lines.len(),
{
    if lines.len() > 0 {
        let before = lines.drop_last();
        assert forall|i: int| 0 <= i < before.len() implies plain_line(#[trigger] before[i]) by {
            assert(before[i] == lines[i]);
        }
        lemma_lines_are_plain(before);
        assert(plain_line(lines[lines.len() - 1]));
        lemma_line_is_plain(lines.last());
        reveal_strlit("\n");
        lemma_plain_joined(bare_lines(before), line_text(lines.last()));
        lemma_plain_joined(bare_lines(before) + line_text(lines.last()), "\n"@);
    }
}

proof fn lemma_transcript_is_plain(
    codes: Seq<Code>,
    outputs: Map<CodeId, BlockOutput>,
    id: CodeId,
)
    requires
        plain_names(codes),
        plain_screens(outputs),
    ensures
        is_plain(plain_transcript(codes, outputs, id)),
{
    reveal_strlit("==> ");
    reveal_strlit(" [block ");
    reveal_strlit("]\n");
    reveal_strlit("<== ");
    reveal_strlit(" exited with code ");
    reveal_strlit("\n");
    reveal_strlit("-");
    reveal_strlit(" failed to start\n");
    reveal_strlit(" produced no output\n");
    let label = label_text(codes, id);
    lemma_label_is_plain(codes, id);
    lemma_digits_are_plain(id as nat);
    lemma_plain_joined("==> "@, label);
    lemma_plain_joined("==> "@ + label, " [block "@);
    lemma_plain_joined("==> "@ + label + " [block "@, decimal_text(id as nat));
    lemma_plain_joined("==> "@ + label + " [block "@ + decimal_text(id as nat), "]\n"@);
    let head = "==> "@ + label + " [block "@ + decimal_text(id as nat) + "]\n"@;
    if outputs.contains_key(id) {
        let output = outputs[id];
        let lines = lines_view(output.screen@);
        assert forall|i: int| 0 <= i < lines.len() implies plain_line(#[trigger] lines[i]) by {}
        lemma_lines_are_plain(lines);
        let body = head + bare_lines(lines);
        lemma_plain_joined(head, bare_lines(lines));
        lemma_plain_joined(body, "<== "@);
        lemma_plain_joined(body + "<== "@, label);
        let end = match output.task.exit_code {
            Some(code) => " exited with code "@ + signed_text(code as int) + "\n"@,
            None => " failed to start\n"@,
        };
        if let Some(code) = output.task.exit_code {
            lemma_digits_are_plain(code as nat);
            lemma_digits_are_plain((-code) as nat);
            assert(is_plain(signed_text(code as int)));
        }
        lemma_plain_joined(body + "<== "@ + label, end);
    } else {
        lemma_plain_joined(head, "<== "@);
        lemma_plain_joined(head + "<== "@, label);
        lemma_plain_joined(head + "<== "@ + label, " produced no output\n"@);
    }
}

proof fn lemma_transcripts_are_plain(
    codes: Seq<Code>,
    outputs: Map<CodeId, BlockOutput>,
    theme: Theme,
    ids: Seq<CodeId>,
)
    requires
        plain_names(codes),
        plain_screens(outputs),
    ensures
        is_plain(transcripts(codes, outputs, theme, false, ids)),
    decreases ids.len(),
{
    if ids.len() > 0 {
        lemma_transcripts_are_plain(codes, outputs, theme, ids.drop_last());
        lemma_transcript_is_plain(codes, outputs, ids.last());
        lemma_plain_joined(
            transcripts(codes, outputs, theme, false, ids.drop_last()),
            plain_transcript(codes, outputs, ids.last()),
        );
    }
}

/// Transcripts of more blocks follow those of the ones before them.
pub proof fn law_transcripts_follow_the_order(
    codes: Seq<Code>,
    outputs: Map<CodeId, BlockOutput>,
    theme: Theme,
    terminal: bool,
    ids: Seq<CodeId>,
    more: Seq<CodeId>,
)
    ensures
        transcripts(codes, outputs, theme, terminal, ids + more) == transcripts(
            codes,
            outputs,
            theme,
            terminal,
            ids,
        ) + transcripts(codes, outputs, theme, terminal, more),
    decreases more.len(),
{
    let all = ids + more;
    if more.len() == 0 {
        assert(all =~= ids);
        assert(transcripts(codes, outputs, theme, terminal, ids) + Seq::<char>::empty()
            =~= transcripts(codes, outputs, theme, terminal, ids));
    } else {
        assert(all.drop_last() =~= ids + more.drop_last());
        assert(all.last() == more.last());
        law_transcripts_follow_the_order(codes, outputs, theme, terminal, ids, more.drop_last());
        assert(transcripts(codes, outputs, theme, terminal, all) =~= transcripts(
            codes,
            outputs,
            theme,
            terminal,
            ids,
        ) + transcripts(codes, outputs, theme, terminal, more));
    }
}

impl App {
    /// Without a terminal no escape byte is written, whatever the theme: names and
    /// screens without it are all that could bring one.
    pub proof fn law_output_without_a_terminal_is_plain(
        self,
        theme: Theme,
        highlighted: Seq<Seq<(Seq<char>, Style)>>,
        preview_lines: int,
        term_width: u16,
    )
        requires
            !self.batch_output@.terminal,
            plain_names(self.codes@),
            plain_screens(self.outputs@),
        ensures
            no_escape(self.rendered(theme, highlighted, preview_lines, term_width).0),
    {
        let ids = joined(self.batch_output@.pending);
        lemma_transcripts_are_plain(self.codes@, self.outputs@, theme, ids);
        law_plain_text_has_no_escape_byte(
            transcripts(self.codes@, self.outputs@, theme, false, ids),
        );
    }

    /// Without a terminal each batch is written once: a second render straight after
    /// the first writes nothing.
    pub proof fn law_batches_are_written_once(
        self,
        after: App,
        theme: Theme,
        highlighted: Seq<Seq<(Seq<char>, Style)>>,
        preview_lines: int,
        term_width: u16,
    )
        requires
            !self.batch_output@.terminal,
            after.batch_output@ == self.rendered(theme, highlighted, preview_lines, term_width).1,
        ensures
            after.rendered(theme, highlighted, preview_lines, term_width).0 == Seq::<u8>::empty(),
            after.rendered(theme, highlighted, preview_lines, term_width).1 == after.batch_output@,
    {
        assert(joined(after.batch_output@.pending) == Seq::<CodeId>::empty());
        assert(transcripts(after.codes@, after.outputs@, theme, false, Seq::empty())
            == Seq::<char>::empty());
    }
}

} // verus!
