//! File picker with a preview of the selected file.

use std::collections::HashMap;

use vstd::prelude::*;
use vstd::utf8::{decode_utf8, encode_utf8, valid_utf8};

use super::goto::{list_window, window_of};
use super::layout::{
    centered_rect, columns_of, inside_popup, is_middle, popup_inner, rows_around, split_columns,
    split_rows,
};
use crate::num::{less_by, smaller};
use crate::picker::{MarkdownFile, PickerAction, PickerState};
use crate::rect::Rect;
use crate::seqs::lemma_indices_where;
use crate::style::{line_view, lines_view, plain, Span, Style};
use crate::text::{
    chars_of, decimal, decimal_text, matches_term, newline_at, repeat_char, repeated, str_width,
    string_of, width_of_text,
};
use crate::theme::{shortcuts_line, Theme};
use crate::theme_library::Painter;

verus! {

broadcast use vstd::std_specs::hash::group_hash_axioms;

/// The list and the preview stand side by side from this width on.
pub const MIN_PREVIEW_WIDTH: u16 = 72;

/// Preview lines beyond the visible height.
pub const PREVIEW_OVERSCAN: usize = 3;

/// Lines of a file that are previewed.
pub const PREVIEW_MAX_LINES: usize = 200;

/// Bytes of a file that are previewed.
pub const PREVIEW_MAX_BYTES: usize = 65536;

/// Cached highlighted preview for a file. Stores only a bounded prefix; when
/// `truncated` is true the file is longer than what `lines` covers.
pub struct PreviewCache {
    pub lines: Vec<Vec<Span>>,
    pub line_count: usize,
    pub truncated: bool,
}

/// A bounded prefix of a file before highlighting.
pub struct PreviewPrefix {
    pub content: String,
    pub line_count: usize,
    pub truncated: bool,
}

/// What `String::from_utf8_lossy` makes of bytes.
pub uninterp spec fn lossy_text(bytes: Seq<u8>) -> Seq<char>;

/// `String::from_utf8_lossy`: the text that bytes encode, with replacement
/// characters for what is no valid UTF-8.
#[verifier::external_body]
fn text_of_bytes(bytes: &[u8]) -> (text: String)
    ensures
        text@ == lossy_text(bytes@),
        valid_utf8(bytes@) ==> text@ == decode_utf8(bytes@),
{
    String::from_utf8_lossy(bytes).into_owned()
}

/// How many characters the first `n` lines take, with their newlines.
pub open spec fn lines_len(s: Seq<char>, n: nat) -> nat
    decreases n,
{
    if n == 0 || s.len() == 0 {
        0
    } else if newline_at(s) >= s.len() {
        s.len()
    } else {
        let k = newline_at(s) + 1;
        k + lines_len(s.skip(k as int), (n - 1) as nat)
    }
}

/// How many lines there are among the first `n`.
pub open spec fn lines_within(s: Seq<char>, n: nat) -> nat
    decreases n,
{
    if n == 0 || s.len() == 0 {
        0
    } else if newline_at(s) >= s.len() {
        1
    } else {
        1 + lines_within(s.skip(newline_at(s) as int + 1), (n - 1) as nat)
    }
}

/// The first lines of a text, up to the line cap. `bytes_truncated` tells that
/// the text itself is only a part of the file.
pub fn prefix_of_text(text: &str, bytes_truncated: bool) -> (prefix: PreviewPrefix)
    ensures
        ({
            let len = lines_len(text@, PREVIEW_MAX_LINES as nat);
            &&& len <= text@.len()
            &&& prefix.content@ == text@.take(len as int)
            &&& prefix.line_count == lines_within(text@, PREVIEW_MAX_LINES as nat)
            &&& prefix.truncated == (bytes_truncated || len < text@.len())
        }),
{
    let chars = chars_of(text);
    let mut start: usize = 0;
    let mut count: usize = 0;
    assert(text@.skip(0) =~= text@);
    while count < PREVIEW_MAX_LINES && start < chars.len()
        invariant
            count <= PREVIEW_MAX_LINES,
            start <= chars@.len(),
            chars@ == text@,
            lines_len(text@, PREVIEW_MAX_LINES as nat) == start + lines_len(
                text@.skip(start as int),
                (PREVIEW_MAX_LINES - count) as nat,
            ),
            lines_within(text@, PREVIEW_MAX_LINES as nat) == count + lines_within(
                text@.skip(start as int),
                (PREVIEW_MAX_LINES - count) as nat,
            ),
        decreases PREVIEW_MAX_LINES - count,
    {
        let end = line_end(&chars, start);
        proof {
            let rest = text@.skip(start as int);
            assert(text@.skip(end as int) =~= rest.skip(end - start));
            if newline_at(rest) >= rest.len() {
                assert(text@.skip(end as int).len() == 0);
            }
        }
        start = end;
        count += 1;
    }
    proof {
        assert(lines_len(text@.skip(start as int), (PREVIEW_MAX_LINES - count) as nat) == 0);
        assert(lines_within(text@.skip(start as int), (PREVIEW_MAX_LINES - count) as nat) == 0);
    }
    let content = string_of(vstd::slice::slice_subrange(chars.as_slice(), 0, start));
    assert(content@ =~= text@.take(start as int));
    PreviewPrefix {
        content,
        line_count: count,
        truncated: bytes_truncated || start < chars.len(),
    }
}

/// The end of the line that starts at `start`, behind its newline.
fn line_end(chars: &Vec<char>, start: usize) -> (end: usize)
    requires
        start < chars@.len(),
    ensures
        start < end <= chars@.len(),
        ({
            let rest = chars@.skip(start as int);
            end == start + if newline_at(rest) >= rest.len() {
                rest.len() as int
            } else {
                newline_at(rest) as int + 1
            }
        }),
{
    let mut i: usize = start;
    while i < chars.len()
        invariant
            start <= i <= chars@.len(),
            newline_at(chars@.skip(start as int)) == (i - start) + newline_at(
                chars@.skip(i as int),
            ),
        decreases chars@.len() - i,
    {
        assert(chars@.skip(i as int)[0] == chars@[i as int]);
        if chars[i] == '\n' {
            return i + 1;
        }
        assert(chars@.skip(i as int).drop_first() =~= chars@.skip(i + 1));
        i += 1;
    }
    i
}

/// A bounded prefix of a file: `bytes` are its first bytes, up to the byte cap,
/// `total_bytes` its size where it is known.
pub fn preview_prefix(bytes: &[u8], total_bytes: Option<u64>) -> (prefix: PreviewPrefix)
    ensures
        ({
            let text = lossy_text(bytes@);
            let len = lines_len(text, PREVIEW_MAX_LINES as nat);
            &&& prefix.content@ == text.take(len as int)
            &&& prefix.line_count == lines_within(text, PREVIEW_MAX_LINES as nat)
            &&& prefix.truncated == ((total_bytes is Some && total_bytes->0 > bytes@.len()) || len
                < text.len())
        }),
{
    let bytes_truncated = match total_bytes {
        Some(total) => total > bytes.len() as u64,
        None => false,
    };
    let text = text_of_bytes(bytes);
    prefix_of_text(text.as_str(), bytes_truncated)
}

/// The picker with the previews that were read so far, by file.
pub struct FilePicker {
    pub state: PickerState,
    pub previews: HashMap<usize, PreviewCache>,
}

/// What the picker shows.
pub struct PickerView {
    pub popup: Rect,
    pub filter_area: Rect,
    pub filter: Vec<Span>,
    pub footer_area: Rect,
    pub body_area: Rect,
    pub body: PickerBody,
}

/// `keys` are the keys of the picker with what they do.
pub open spec fn open_keys(keys: Seq<(String, String)>) -> bool {
    &&& keys.len() == 3
    &&& keys[0].0@ == "↑↓"@ && keys[0].1@ == "move"@
    &&& keys[1].0@ == "↵"@ && keys[1].1@ == "open"@
    &&& keys[2].0@ == "esc"@ && keys[2].1@ == "cancel"@
}

pub enum PickerBody {
    /// A message in the middle of the body.
    Message(Vec<Vec<Span>>),
    List { area: Rect, items: Vec<Vec<Span>>, preview: Option<(Rect, Vec<Vec<Span>>)> },
}

impl FilePicker {
    pub open spec fn wf(&self) -> bool {
        &&& self.state.wf()
        &&& self.state.files@.len() <= usize::MAX
    }

    /// A picker without previews; the caller then asks which one is needed.
    pub fn new(files: Vec<MarkdownFile>) -> (picker: FilePicker)
        ensures
            picker.wf(),
            picker.state.files == files,
            picker.state.query@.len() == 0,
            picker.state.selected == 0,
            picker.previews@ == Map::<usize, PreviewCache>::empty(),
    {
        let count: usize = files.len();
        assert(files@.len() == count);
        FilePicker { state: PickerState::new(files), previews: HashMap::new() }
    }

    /// The file that is selected.
    pub open spec fn selected_idx(&self) -> Option<usize> {
        if self.state.selected < self.state.matches@.len() {
            Some(self.state.matches@[self.state.selected as int])
        } else {
            None
        }
    }

    proof fn lemma_matches(&self)
        requires
            self.wf(),
        ensures
            forall|k: int|
                0 <= k < self.state.matches@.len() ==> (#[trigger] self.state.matches@[k])
                    < self.state.files@.len(),
    {
        lemma_indices_where(
            self.state.files@.len(),
            |i: int| matches_term(self.state.files@[i].display@, self.state.query@),
        );
    }

    /// The path of the selected file.
    pub open spec fn selected_file(&self) -> Option<Seq<char>> {
        match self.selected_idx() {
            Some(idx) => Some(self.state.files@[idx as int].path@),
            None => None,
        }
    }

    /// The path of the selected file.
    /// The keys of the picker.
    pub fn footer_shortcuts(&self, theme: &Theme) -> (spans: Vec<Span>)
        ensures
            exists|keys: Seq<(String, String)>| #[trigger]
                open_keys(keys) && line_view(spans@) == shortcuts_line(*theme, keys),
    {
        let mut keys: Vec<(String, String)> = Vec::new();
        keys.push(("↑↓".to_owned(), "move".to_owned()));
        keys.push(("↵".to_owned(), "open".to_owned()));
        keys.push(("esc".to_owned(), "cancel".to_owned()));
        assert(open_keys(keys@));
        theme.shortcuts(keys.as_slice())
    }

    pub fn selected_path(&self) -> (path: Option<&str>)
        requires
            self.wf(),
        ensures
            match path {
                Some(p) => self.selected_file() == Some(p@),
                None => self.selected_file() is None,
            },
    {
        proof {
            self.lemma_matches();
        }
        match self.state.selected_file_idx() {
            Some(idx) => Some(self.state.files[idx].path.as_str()),
            None => None,
        }
    }

    /// The file whose preview has to be read: the selected one, unless it was
    /// read before. Without a selection the previews are forgotten.
    pub fn refresh_preview(&mut self) -> (needed: Option<usize>)
        requires
            old(self).wf(),
        ensures
            final(self).wf(),
            final(self).state == old(self).state,
            match old(self).selected_idx() {
                None => needed is None && final(self).previews@ == Map::<
                    usize,
                    PreviewCache,
                >::empty(),
                Some(idx) => final(self).previews == old(self).previews && needed == (if old(self).previews@.contains_key(idx) {
                    None
                } else {
                    Some(idx)
                }),
            },
    {
        match self.state.selected_file_idx() {
            None => {
                self.previews.clear();
                None
            },
            Some(idx) => {
                if self.previews.contains_key(&idx) {
                    None
                } else {
                    Some(idx)
                }
            },
        }
    }

    /// Keeps the preview of a file that was read.
    pub fn store_preview(&mut self, idx: usize, preview: PreviewCache)
        requires
            old(self).wf(),
        ensures
            final(self).wf(),
            final(self).state == old(self).state,
            final(self).previews@ == old(self).previews@.insert(idx, preview),
    {
        self.previews.insert(idx, preview);
    }

    /// The preview of a file: what is shown of its first lines, highlighted as
    /// Markdown.
    pub open spec fn previews_file(
        preview: PreviewCache,
        bytes: Seq<u8>,
        total_bytes: Option<u64>,
        painter: Painter,
    ) -> bool {
        let text = lossy_text(bytes);
        let len = lines_len(text, PREVIEW_MAX_LINES as nat);
        &&& lines_view(preview.lines@) == painter.painted(text.take(len as int), "md"@)
        &&& preview.line_count == lines_within(text, PREVIEW_MAX_LINES as nat)
        &&& preview.truncated == ((total_bytes is Some && total_bytes->0 > bytes.len()) || len
            < text.len())
    }

    /// The preview of a file. `bytes` are its first bytes, up to the byte cap,
    /// `total_bytes` its size where it is known.
    pub fn file_preview(bytes: &[u8], total_bytes: Option<u64>, painter: &Painter) -> (preview:
        PreviewCache)
        ensures
            FilePicker::previews_file(preview, bytes@, total_bytes, *painter),
    {
        let prefix = preview_prefix(bytes, total_bytes);
        PreviewCache {
            lines: painter.highlight(prefix.content.as_str(), "md"),
            line_count: prefix.line_count,
            truncated: prefix.truncated,
        }
    }

    /// The preview of a file that could not be read.
    pub fn failed_preview() -> (preview: PreviewCache)
        ensures
            lines_view(preview.lines@) == seq![seq![("(error reading file)"@, plain())]],
            preview.line_count == 1,
            !preview.truncated,
    {
        let mut line: Vec<Span> = Vec::new();
        line.push(Span::styled("(error reading file)".to_owned(), Style::default()));
        assert(line_view(line@) =~= seq![("(error reading file)"@, plain())]);
        let mut lines: Vec<Vec<Span>> = Vec::new();
        lines.push(line);
        assert(lines_view(lines@) =~= seq![seq![("(error reading file)"@, plain())]]);
        PreviewCache { lines, line_count: 1, truncated: false }
    }

    /// Takes an action; `Select` and `Quit` are handed to the owner.
    pub fn update(&mut self, action: PickerAction) -> (outcome: Option<PickerAction>)
        requires
            old(self).wf(),
        ensures
            final(self).wf(),
            final(self).state.navigated(old(self).state, action),
            final(self).previews == old(self).previews,
            outcome == (if action is Select || action is Quit {
                Some(action)
            } else {
                None
            }),
    {
        if self.state.handle_navigation(&action) {
            return None;
        }
        Some(action)
    }

    /// The query, or a note where there is none.
    pub open spec fn query_text(&self) -> Seq<char> {
        if self.state.query@.len() > 0 {
            self.state.query@
        } else {
            "type to filter..."@
        }
    }

    /// The number of matches.
    pub open spec fn count_text(&self) -> Seq<char> {
        "("@ + decimal_text(self.state.matches@.len()) + "/"@ + decimal_text(
            self.state.files@.len(),
        ) + ")"@
    }

    /// The filter row with the match count right-aligned.
    pub open spec fn filter_row(&self, width: u16, theme: Theme) -> Seq<(Seq<char>, Style)> {
        let used = width_of_text("File: "@) + width_of_text(self.query_text()) + encode_utf8(
            self.count_text(),
        ).len() + 1;
        seq![
            ("File: "@, plain()),
            (
                self.query_text(),
                plain().fg_spec(
                    if self.state.query@.len() > 0 {
                        theme.active
                    } else {
                        theme.muted
                    },
                ),
            ),
            (repeated(' ', less_by(width as int, used) as nat), plain()),
            (" "@ + self.count_text(), plain()),
        ]
    }

    /// Builds the filter row with the match count right-aligned.
    pub fn filter_line(&self, width: u16, theme: &Theme) -> (spans: Vec<Span>)
        ensures
            line_view(spans@) == self.filter_row(width, *theme),
    {
        let empty = self.state.query.as_str().is_empty();
        let query = if empty {
            "type to filter...".to_owned()
        } else {
            self.state.query.clone()
        };
        let mut count = "(".to_owned();
        count.append(decimal(self.state.matches.len() as u64).as_str());
        count.append("/");
        count.append(decimal(self.state.files.len() as u64).as_str());
        count.append(")");
        let used: usize = str_width("File: ").saturating_add(
            str_width(query.as_str()),
        ).saturating_add(count.as_str().as_bytes().len()).saturating_add(1);
        let gap: usize = (width as usize).saturating_sub(used);
        let mut right = " ".to_owned();
        right.append(count.as_str());
        let color = if empty {
            theme.muted
        } else {
            theme.active
        };
        let mut spans: Vec<Span> = Vec::new();
        spans.push(Span::styled("File: ".to_owned(), Style::default()));
        spans.push(Span::styled(query, Style::default().fg(color)));
        spans.push(Span::styled(repeat_char(' ', gap), Style::default()));
        spans.push(Span::styled(right, Style::default()));
        proof {
            let all = width_of_text("File: "@) + width_of_text(self.query_text())
                + encode_utf8(self.count_text()).len() + 1;
            assert(gap == less_by(width as int, all));
            assert(line_view(spans@) =~= seq![
                ("File: "@, plain()),
                (query@, plain().fg_spec(color)),
                (repeated(' ', gap as nat), plain()),
                (" "@ + count@, plain()),
            ]);
        }
        spans
    }

    /// Builds a vertically centered muted message.
    pub fn centered_message(message: &str, height: u16, theme: &Theme) -> (lines: Vec<Vec<Span>>)
        ensures
            ({
                let pad = less_by(height as int, 1) / 2;
                lines_view(lines@) == Seq::new(
                    pad as nat,
                    |i: int| Seq::<(Seq<char>, Style)>::empty(),
                ).push(seq![(message@, theme.muted_fg())])
            }),
    {
        let pad: usize = (height as usize).saturating_sub(1) / 2;
        let mut lines: Vec<Vec<Span>> = Vec::new();
        let mut i: usize = 0;
        let ghost blank = |i: int| Seq::<(Seq<char>, Style)>::empty();
        assert(lines_view(lines@) =~= Seq::new(0, blank));
        while i < pad
            invariant
                i <= pad,
                blank == (|i: int| Seq::<(Seq<char>, Style)>::empty()),
                lines_view(lines@) == Seq::new(i as nat, blank),
            decreases pad - i,
        {
            let ghost before = lines_view(lines@);
            let line: Vec<Span> = Vec::new();
            assert(line_view(line@) =~= Seq::empty());
            lines.push(line);
            assert(lines_view(lines@) =~= before.push(Seq::empty()));
            assert(lines_view(lines@) =~= Seq::new((i + 1) as nat, blank));
            i += 1;
        }
        let ghost before = lines_view(lines@);
        let mut line: Vec<Span> = Vec::new();
        line.push(Span::styled(message.to_owned(), theme.muted_style()));
        assert(line_view(line@) =~= seq![(message@, theme.muted_fg())]);
        lines.push(line);
        assert(lines_view(lines@) =~= before.push(seq![(message@, theme.muted_fg())]));
        lines
    }

    /// The part of the matches that is shown in a list of the given height.
    pub open spec fn match_window(&self, height: int) -> (int, int) {
        if height == 0 {
            (0, 0)
        } else {
            window_of(self.state.matches@.len() as int, self.state.selected as int, height)
        }
    }

    /// Returns the visible match window for the current selection.
    pub fn visible_match_range(&self, height: u16) -> (range: (usize, usize))
        requires
            self.wf(),
        ensures
            (range.0 as int, range.1 as int) == self.match_window(height as int),
            range.0 <= range.1 <= self.state.matches@.len(),
    {
        if height == 0 {
            return (0, 0);
        }
        list_window(self.state.matches.len(), self.state.selected, height as usize)
    }

    /// A row of the list.
    pub open spec fn item_line(&self, place: int, theme: Theme) -> Seq<(Seq<char>, Style)> {
        let selected = place == self.state.selected;
        let display = self.state.files@[self.state.matches@[place] as int].display@;
        seq![
            (
                (if selected {
                    "▸ "@
                } else {
                    "  "@
                }) + display,
                plain().fg_spec(
                    if selected {
                        theme.active
                    } else {
                        theme.foreground
                    },
                ),
            ),
        ]
    }

    /// Builds styled list rows for the visible match window.
    pub fn visible_match_items(&self, height: u16, theme: &Theme) -> (items: Vec<Vec<Span>>)
        requires
            self.wf(),
        ensures
            ({
                let (start, end) = self.match_window(height as int);
                &&& items@.len() == end - start
                &&& forall|i: int|
                    0 <= i < items@.len() ==> line_view((#[trigger] items@[i])@) == self.item_line(
                        start + i,
                        *theme,
                    )
            }),
    {
        proof {
            self.lemma_matches();
        }
        let (start, end) = self.visible_match_range(height);
        let mut items: Vec<Vec<Span>> = Vec::new();
        let mut i: usize = start;
        while i < end
            invariant
                start <= i <= end <= self.state.matches@.len(),
                items@.len() == i - start,
                forall|k: int|
                    0 <= k < self.state.matches@.len() ==> (#[trigger] self.state.matches@[k])
                        < self.state.files@.len(),
                forall|k: int|
                    0 <= k < items@.len() ==> line_view((#[trigger] items@[k])@) == self.item_line(
                        start + k,
                        *theme,
                    ),
            decreases end - i,
        {
            let file = &self.state.files[self.state.matches[i]];
            let selected = i == self.state.selected;
            let mut text = if selected {
                "▸ ".to_owned()
            } else {
                "  ".to_owned()
            };
            text.append(file.display.as_str());
            let color = if selected {
                theme.active
            } else {
                theme.foreground
            };
            let mut line: Vec<Span> = Vec::new();
            line.push(Span::styled(text, Style::default().fg(color)));
            assert(line_view(line@) =~= self.item_line(i as int, *theme));
            items.push(line);
            i += 1;
        }
        items
    }

    /// The head of a preview: the file and how much of it is shown.
    pub open spec fn preview_head(file: MarkdownFile, preview: PreviewCache) -> Seq<char> {
        file.display@ + "  ("@ + (if preview.truncated {
            "first "@ + decimal_text(preview.line_count as nat) + " lines"@
        } else {
            decimal_text(preview.line_count as nat) + " lines"@
        }) + ")"@
    }

    /// A preview in an area of the given height.
    pub open spec fn shown_preview(
        file: MarkdownFile,
        preview: PreviewCache,
        height: int,
        theme: Theme,
    ) -> Seq<Seq<(Seq<char>, Style)>> {
        let all = lines_view(preview.lines@);
        let lines = all.take(smaller(height + PREVIEW_OVERSCAN, all.len() as int));
        if lines.len() == 0 {
            Seq::empty()
        } else {
            let headed = seq![seq![(Self::preview_head(file, preview), theme.muted_fg())]] + lines;
            if preview.truncated {
                headed.push(seq![("... preview truncated"@, theme.muted_fg())])
            } else {
                headed
            }
        }
    }

    fn head_text(file: &MarkdownFile, preview: &PreviewCache) -> (text: String)
        ensures
            text@ == Self::preview_head(*file, *preview),
    {
        let count = if preview.truncated {
            let mut count = "first ".to_owned();
            count.append(decimal(preview.line_count as u64).as_str());
            count.append(" lines");
            count
        } else {
            let mut count = decimal(preview.line_count as u64);
            count.append(" lines");
            count
        };
        let mut text = file.display.clone();
        text.append("  (");
        text.append(count.as_str());
        text.append(")");
        text
    }

    /// The selected file's preview, with its header line.
    pub open spec fn previewed(&self, height: int, theme: Theme) -> Seq<Seq<(Seq<char>, Style)>> {
        if self.selected_idx() is Some && self.previews@.contains_key(self.selected_idx()->0) {
            let idx = self.selected_idx()->0;
            Self::shown_preview(
                self.state.files@[idx as int],
                self.previews@[idx],
                height,
                theme,
            )
        } else {
            Seq::empty()
        }
    }

    /// Builds the selected file preview, including its header line.
    pub fn preview_lines(&self, height: u16, theme: &Theme) -> (lines: Vec<Vec<Span>>)
        requires
            self.wf(),
        ensures
            lines_view(lines@) == self.previewed(height as int, *theme),
    {
        proof {
            self.lemma_matches();
        }
        let mut lines: Vec<Vec<Span>> = Vec::new();
        assert(lines_view(lines@) =~= Seq::empty());
        let idx = match self.state.selected_file_idx() {
            Some(idx) => idx,
            None => {
                return lines;
            },
        };
        let preview = match self.previews.get(&idx) {
            Some(preview) => preview,
            None => {
                return lines;
            },
        };
        let file = &self.state.files[idx];
        let take: usize = (height as usize + PREVIEW_OVERSCAN).min(preview.lines.len());
        if take == 0 {
            return lines;
        }
        let ghost all = lines_view(preview.lines@);
        let mut head: Vec<Span> = Vec::new();
        head.push(Span::styled(Self::head_text(file, preview), theme.muted_style()));
        assert(line_view(head@) =~= seq![(Self::preview_head(*file, *preview), theme.muted_fg())]);
        let ghost first = line_view(head@);
        lines.push(head);
        assert(lines_view(lines@) =~= seq![first] + all.take(0));
        let mut i: usize = 0;
        while i < take
            invariant
                i <= take <= preview.lines@.len(),
                all == lines_view(preview.lines@),
                lines_view(lines@) == seq![first] + all.take(i as int),
            decreases take - i,
        {
            let ghost before = lines_view(lines@);
            let line = copy_line(&preview.lines[i]);
            let ghost view = line_view(line@);
            lines.push(line);
            proof {
                assert(lines_view(lines@) =~= before.push(view));
                assert(all[i as int] == view);
                assert(seq![first] + all.take(i + 1) =~= (seq![first] + all.take(i as int)).push(
                    view,
                ));
            }
            i += 1;
        }
        if preview.truncated {
            let ghost before = lines_view(lines@);
            let mut note: Vec<Span> = Vec::new();
            note.push(Span::styled("... preview truncated".to_owned(), theme.muted_style()));
            assert(line_view(note@) =~= seq![("... preview truncated"@, theme.muted_fg())]);
            lines.push(note);
            assert(lines_view(lines@) =~= before.push(
                seq![("... preview truncated"@, theme.muted_fg())],
            ));
        }
        lines
    }

    /// The body with a list and perhaps a preview in the given areas.
    pub open spec fn listed_in(
        &self,
        body: PickerBody,
        list_area: Rect,
        preview_area: Option<Rect>,
        theme: Theme,
    ) -> bool {
        body matches PickerBody::List { area, items, preview } && {
            let (start, end) = self.match_window(list_area.height as int);
            &&& area == list_area
            &&& items@.len() == end - start
            &&& forall|i: int|
                0 <= i < items@.len() ==> line_view((#[trigger] items@[i])@) == self.item_line(
                    start + i,
                    theme,
                )
            &&& match preview_area {
                Some(at) => {
                    &&& preview is Some
                    &&& (preview->0).0 == at
                    &&& lines_view((preview->0).1@) == self.previewed(at.height as int, theme)
                },
                None => preview is None,
            }
        }
    }

    /// What the body shows in lists of the given areas.
    pub fn body(&self, list_area: Rect, preview_area: Option<Rect>, theme: &Theme) -> (body:
        PickerBody)
        requires
            self.wf(),
        ensures
            self.listed_in(body, list_area, preview_area, *theme),
    {
        let preview = match preview_area {
            Some(rect) => Some((rect, self.preview_lines(rect.height, theme))),
            None => None,
        };
        PickerBody::List {
            area: list_area,
            items: self.visible_match_items(list_area.height, theme),
            preview,
        }
    }

    /// The picker in an area: a row for the filter, the list, on a wide area with the
    /// preview next to it, and a row for the keys.
    pub open spec fn drawn_in(&self, view: PickerView, area: Rect, theme: Theme) -> bool {
        let body = view.body_area;
        &&& is_middle(view.popup, 70, 50, area)
        &&& rows_around(inside_popup(view.popup), view.filter_area, body, view.footer_area)
        &&& line_view(view.filter@) == self.filter_row(view.filter_area.width, theme)
        &&& if self.state.matches@.len() == 0 {
            view.body matches PickerBody::Message(lines) && lines_view(lines@) == Seq::new(
                (less_by(body.height as int, 1) / 2) as nat,
                |i: int| Seq::<(Seq<char>, Style)>::empty(),
            ).push(seq![("No matching files"@, theme.muted_fg())])
        } else if body.width >= MIN_PREVIEW_WIDTH {
            self.listed_in(
                view.body,
                columns_of(body, 55).0,
                Some(columns_of(body, 55).1),
                theme,
            )
        } else {
            self.listed_in(view.body, body, None, theme)
        }
    }

    /// Lays the picker out in an area: on a wide one the preview stands next to
    /// the list.
    pub fn render(&self, area: Rect, theme: &Theme) -> (view: PickerView)
        requires
            self.wf(),
        ensures
            self.drawn_in(view, area, *theme),
    {
        let popup = centered_rect(70, 50, area);
        let inner = popup_inner(popup);
        let (filter_area, body_area, footer_area) = split_rows(inner);
        let body = if self.state.matches.is_empty() {
            PickerBody::Message(
                Self::centered_message("No matching files", body_area.height, theme),
            )
        } else if body_area.width >= MIN_PREVIEW_WIDTH {
            let (list_area, preview_area) = split_columns(body_area, 55);
            self.body(list_area, Some(preview_area), theme)
        } else {
            self.body(body_area, None, theme)
        };
        PickerView {
            popup,
            filter_area,
            filter: self.filter_line(filter_area.width, theme),
            footer_area,
            body_area,
            body,
        }
    }
}

/// A copy of a styled line.
pub fn copy_line(line: &Vec<Span>) -> (copy: Vec<Span>)
    ensures
        line_view(copy@) == line_view(line@),
{
    let mut copy: Vec<Span> = Vec::new();
    let mut i: usize = 0;
    assert(line_view(copy@) =~= line_view(line@).take(0));
    while i < line.len()
        invariant
            i <= line@.len(),
            line_view(copy@) == line_view(line@).take(i as int),
        decreases line@.len() - i,
    {
        let ghost before = line_view(copy@);
        let span = line[i].copy();
        let ghost view = span@;
        copy.push(span);
        assert(line_view(copy@) =~= before.push(view));
        assert(line_view(line@).take(i + 1) =~= line_view(line@).take(i as int).push(view));
        i += 1;
    }
    assert(line_view(line@).take(i as int) =~= line_view(line@));
    copy
}

/// A preview holds whole lines from the start of the file, as many as were asked for or
/// as there are, and counts them.
pub proof fn law_previews_hold_whole_lines(s: Seq<char>, n: nat)
    ensures
        lines_len(s, n) <= s.len(),
        lines_within(s, n) <= n,
        lines_len(s, n) < s.len() ==> lines_within(s, n) == n,
        0 < lines_len(s, n) < s.len() ==> s[lines_len(s, n) - 1] == '\n',
        crate::text::line_breaks(s.take(lines_len(s, n) as int)) <= lines_within(s, n)
            <= crate::text::line_breaks(s.take(lines_len(s, n) as int)) + 1,
    decreases n,
{
    crate::highlight::lemma_newline_at(s);
    if n == 0 || s.len() == 0 {
        assert(s.take(0) =~= Seq::empty());
    } else if newline_at(s) >= s.len() {
        assert(s.take(s.len() as int) =~= s);
        lemma_unbroken(s);
    } else {
        let k = newline_at(s) as int + 1;
        let rest = s.skip(k);
        law_previews_hold_whole_lines(rest, (n - 1) as nat);
        let more = lines_len(rest, (n - 1) as nat) as int;
        assert(s.take(k + more) =~= s.take(k) + rest.take(more));
        crate::text::lemma_breaks_add(s.take(k), rest.take(more));
        assert(s.take(k).drop_last() =~= s.take(k - 1));
        lemma_unbroken(s.take(k - 1));
        assert(s.take(k).last() == '\n');
        if 0 < k + more < s.len() {
            if more > 0 {
                assert(s[k + more - 1] == rest[more - 1]);
            }
        }
    }
}

proof fn lemma_unbroken(s: Seq<char>)
    requires
        forall|i: int| 0 <= i < s.len() ==> #[trigger] s[i] != '\n',
    ensures
        crate::text::line_breaks(s) == 0,
    decreases s.len(),
{
    if s.len() > 0 {
        let less = s.drop_last();
        assert forall|i: int| 0 <= i < less.len() implies #[trigger] less[i] != '\n' by {
            assert(s[i] != '\n');
        }
        lemma_unbroken(less);
        assert(s[s.len() - 1] != '\n');
    }
}

impl FilePicker {
    /// The file that is opened is the selected one of those that match.
    pub proof fn law_the_selected_file_is_opened(&self)
        requires
            self.wf(),
        ensures
            self.selected_idx() matches Some(idx) ==> idx < self.state.files@.len()
                && matches_term(self.state.files@[idx as int].display@, self.state.query@)
                && self.selected_file() == Some(self.state.files@[idx as int].path@),
            self.selected_file() is None <==> self.state.matches@.len() == 0,
    {
        lemma_indices_where(
            self.state.files@.len(),
            |i: int| matches_term(self.state.files@[i].display@, self.state.query@),
        );
    }
}

impl FilePicker {
    /// A line of the list shows its file; the selected one has a pointer and stands out.
    pub proof fn law_lines_show_their_file(&self, place: int, theme: Theme)
        requires
            0 <= place < self.state.matches@.len(),
        ensures
            ({
                let line = self.item_line(place, theme);
                let file = self.state.files@[self.state.matches@[place] as int];
                &&& line.len() == 1
                &&& line[0].0.skip(2) == file.display@
                &&& place == self.state.selected ==> line[0].0[0] == '▸' && line[0].1.fg == Some(
                    theme.active,
                )
                &&& place != self.state.selected ==> line[0].0[0] == ' ' && line[0].1.fg == Some(
                    theme.foreground,
                )
            }),
    {
        reveal_strlit("▸ ");
        reveal_strlit("  ");
        let line = self.item_line(place, theme);
        let file = self.state.files@[self.state.matches@[place] as int];
        assert(line[0].0.skip(2) =~= file.display@);
    }

    /// The selected file is among those that are listed, as long as there are two rows.
    pub proof fn law_the_selected_file_is_listed(&self, height: int)
        requires
            height >= 2,
            self.state.selected < self.state.matches@.len(),
        ensures
            ({
                let (start, end) = self.match_window(height);
                &&& start <= self.state.selected < end
                &&& end - start <= height
                &&& 0 <= start && end <= self.state.matches@.len()
                &&& self.state.matches@.len() < height ==> start == 0 && end
                    == self.state.matches@.len()
            }),
    {
        super::goto::law_selection_is_shown(
            self.state.matches@.len() as int,
            self.state.selected as int,
            height,
        );
        super::goto::law_window_is_used(
            self.state.matches@.len() as int,
            self.state.selected as int,
            height,
        );
    }

    /// The filter shows what was typed, or how to type, and tells how many of the files
    /// match.
    pub proof fn law_the_filter_tells_the_matches(&self, width: u16, theme: Theme)
        ensures
            ({
                let row = self.filter_row(width, theme);
                let found = decimal_text(self.state.matches@.len());
                let all = decimal_text(self.state.files@.len());
                &&& self.state.query@.len() > 0 ==> row[1].0 == self.state.query@
                    && row[1].1.fg == Some(theme.active)
                &&& self.state.query@.len() == 0 ==> row[1].1.fg == Some(theme.muted)
                &&& row[3].0.len() == found.len() + all.len() + 4
                &&& row[3].0.subrange(2, 2 + found.len() as int) == found
                &&& row[3].0.subrange(
                    3 + found.len() as int,
                    (3 + found.len() + all.len()) as int,
                ) == all
            }),
    {
        reveal_strlit(" ");
        reveal_strlit("(");
        reveal_strlit("/");
        reveal_strlit(")");
        let row = self.filter_row(width, theme);
        let found = decimal_text(self.state.matches@.len());
        let all = decimal_text(self.state.files@.len());
        assert(row[3].0.subrange(2, 2 + found.len() as int) =~= found);
        assert(row[3].0.subrange(3 + found.len() as int, (3 + found.len() + all.len()) as int)
            =~= all);
    }

    /// A preview is headed by the file and closed by a note where it was cut off; between
    /// them stand its lines, in order.
    pub proof fn law_previews_stand_below_their_head(
        file: MarkdownFile,
        preview: PreviewCache,
        height: int,
        theme: Theme,
        i: int,
    )
        requires
            height >= 1,
        ensures
            ({
                let all = lines_view(preview.lines@);
                let shown = Self::shown_preview(file, preview, height, theme);
                &&& all.len() == 0 ==> shown.len() == 0
                &&& all.len() > 0 ==> shown.len() >= 2
                &&& all.len() > 0 && !preview.truncated && all.len() <= height ==> shown.len()
                    == all.len() + 1
                &&& all.len() > 0 && preview.truncated && all.len() <= height ==> shown.len()
                    == all.len() + 2
                &&& all.len() > 0 && 0 <= i < all.len() && i < height ==> shown[i + 1] == all[i]
                &&& all.len() > 0 ==> shown[0][0].0.take(file.display@.len() as int)
                    == file.display@
            }),
    {
        let all = lines_view(preview.lines@);
        let shown = Self::shown_preview(file, preview, height, theme);
        if all.len() > 0 {
            let head = Self::preview_head(file, preview);
            assert(head.take(file.display@.len() as int) =~= file.display@);
            assert(shown[0] == seq![(head, theme.muted_fg())]);
        }
    }
}

} // verus!
