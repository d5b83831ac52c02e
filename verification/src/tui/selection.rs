//! Text selection across lines with character precision.

use vstd::prelude::*;

use crate::num::{less_by, smaller};
use crate::rect::Rect;
use crate::style::{lemma_line_push, line_text, line_view, text_of_line, Span, Style};
use crate::text::{
    char_width, chars_of, lemma_breaks_add, line_breaks, string_of, width_of_char,
};

verus! {

/// A line of text as it is copied.
pub struct CopyLine {
    pub text: String,
    /// The line continues the one before it.
    pub is_continuation: bool,
    /// Displayed characters in front of the text that are not copied.
    pub display_prefix_len: usize,
}

/// The contents of a line as it is copied.
pub struct CopyView {
    pub text: Seq<char>,
    pub continuation: bool,
    pub prefix: int,
}

impl View for CopyLine {
    type V = CopyView;

    open spec fn view(&self) -> CopyView {
        CopyView {
            text: self.text@,
            continuation: self.is_continuation,
            prefix: self.display_prefix_len as int,
        }
    }
}

/// The contents of a line that may be missing.
pub open spec fn copy_view(line: Option<CopyLine>) -> Option<CopyView> {
    match line {
        Some(copy) => Some(copy@),
        None => None,
    }
}

/// A source of lines can be asked for any line.
pub open spec fn is_source<F: Fn(usize) -> Option<CopyLine>>(get_line: F) -> bool {
    forall|line: usize| #[trigger] call_requires(get_line, (line,))
}

/// A source gives these lines, whenever it is asked.
pub open spec fn gives<F: Fn(usize) -> Option<CopyLine>>(
    get_line: F,
    lines: spec_fn(int) -> Option<CopyView>,
) -> bool {
    forall|line: usize, x: Option<CopyLine>| #[trigger]
        call_ensures(get_line, (line,), x) ==> copy_view(x) == lines(line as int)
}

/// The selected range between two `(line, character)` positions.
#[derive(Clone, Debug)]
pub struct SelectionState {
    start: Option<(usize, usize)>,
    end: Option<(usize, usize)>,
    is_dragging: bool,
}

/// The contents of a selection.
pub struct SelectionView {
    pub start: Option<(usize, usize)>,
    pub end: Option<(usize, usize)>,
    pub dragging: bool,
}

impl View for SelectionState {
    type V = SelectionView;

    closed spec fn view(&self) -> SelectionView {
        SelectionView { start: self.start, end: self.end, dragging: self.is_dragging }
    }
}

/// `a` is not after `b`.
pub open spec fn not_after(a: (usize, usize), b: (usize, usize)) -> bool {
    a.0 < b.0 || (a.0 == b.0 && a.1 <= b.1)
}

impl SelectionView {
    /// Nothing is selected.
    pub open spec fn nothing() -> SelectionView {
        SelectionView { start: None, end: None, dragging: false }
    }

    /// A selection begins.
    pub open spec fn started(line: usize, char_offset: usize) -> SelectionView {
        SelectionView {
            start: Some((line, char_offset)),
            end: Some((line, char_offset)),
            dragging: true,
        }
    }

    /// The end is dragged.
    pub open spec fn extended(self, line: usize, char_offset: usize) -> SelectionView {
        if self.dragging {
            SelectionView { end: Some((line, char_offset)), ..self }
        } else {
            self
        }
    }

    /// Both ends are known.
    pub open spec fn complete(self) -> bool {
        self.start is Some && self.end is Some
    }

    /// Nothing lies between the ends.
    pub open spec fn is_empty(self) -> bool {
        !self.complete() || self.start == self.end
    }

    /// The end that comes first.
    pub open spec fn low(self) -> (usize, usize) {
        if not_after(self.start->0, self.end->0) {
            self.start->0
        } else {
            self.end->0
        }
    }

    /// The end that comes last.
    pub open spec fn high(self) -> (usize, usize) {
        if not_after(self.start->0, self.end->0) {
            self.end->0
        } else {
            self.start->0
        }
    }

    /// An end lies outside of the first `lines` lines.
    pub open spec fn outside(self, lines: int) -> bool {
        (self.start matches Some(p) && p.0 >= lines) || (self.end matches Some(p) && p.0 >= lines)
    }

    /// The selected characters of a line of the given length.
    pub open spec fn range_for(self, line: usize, len: usize) -> Option<(int, int)> {
        if !self.complete() || line < self.low().0 || line > self.high().0 {
            None
        } else {
            Some(
                (
                    if line == self.low().0 {
                        self.low().1 as int
                    } else {
                        0
                    },
                    if line == self.high().0 {
                        smaller(self.high().1 as int, len as int)
                    } else {
                        len as int
                    },
                ),
            )
        }
    }

    /// The selected part of a line as it is copied.
    pub open spec fn selected_part(self, line: int, copy: CopyView) -> Seq<char> {
        let len = copy.text.len() as int;
        let from = if line == self.low().0 {
            less_by(self.low().1 as int, copy.prefix)
        } else {
            0
        };
        let to = if line == self.high().0 {
            smaller(less_by(self.high().1 as int, copy.prefix), len)
        } else {
            len
        };
        if from < to {
            copy.text.subrange(from, to)
        } else {
            Seq::empty()
        }
    }

    /// The selected text from the first selected line up to (not including)
    /// `line`: the selected parts, each on a line of its own unless it continues
    /// the one before it.
    pub open spec fn copied_before(self, lines: spec_fn(int) -> Option<CopyView>, line: int) -> Seq<
        char,
    >
        decreases line,
    {
        if line <= self.low().0 {
            Seq::empty()
        } else {
            let before = self.copied_before(lines, line - 1);
            let copy = lines(line - 1)->0;
            let part = self.selected_part(line - 1, copy);
            if part.len() == 0 {
                before
            } else if before.len() > 0 && !copy.continuation {
                before.push('\n') + part
            } else {
                before + part
            }
        }
    }

    /// Every selected line is there.
    pub open spec fn all_there(self, lines: spec_fn(int) -> Option<CopyView>) -> bool {
        forall|line: int| self.low().0 <= line <= self.high().0 ==> #[trigger] lines(line) is Some
    }

    /// The selected text, where there is any.
    pub open spec fn copied(self, lines: spec_fn(int) -> Option<CopyView>) -> Option<Seq<char>> {
        if !self.complete() || !self.all_there(lines) {
            None
        } else {
            let text = self.copied_before(lines, self.high().0 + 1);
            if text.len() == 0 {
                None
            } else {
                Some(text)
            }
        }
    }
}

impl Default for SelectionState {
    fn default() -> (state: SelectionState)
        ensures
            state@ == SelectionView::nothing(),
    {
        SelectionState { start: None, end: None, is_dragging: false }
    }
}

impl SelectionState {
    /// Creates a new, empty selection state.
    pub fn new() -> (state: SelectionState)
        ensures
            state@ == SelectionView::nothing(),
    {
        SelectionState { start: None, end: None, is_dragging: false }
    }

    /// Clears the current selection and stops dragging.
    pub fn clear(&mut self)
        ensures
            final(self)@ == SelectionView::nothing(),
    {
        self.start = None;
        self.end = None;
        self.is_dragging = false;
    }

    /// Clears the selection if either end references a line that no longer
    /// exists.
    pub fn clamp_or_clear(&mut self, line_count: usize)
        ensures
            final(self)@ == (if line_count == 0 || old(self)@.outside(line_count as int) {
                SelectionView::nothing()
            } else {
                old(self)@
            }),
    {
        let start_outside = match self.start {
            Some((line, _)) => line >= line_count,
            None => false,
        };
        let end_outside = match self.end {
            Some((line, _)) => line >= line_count,
            None => false,
        };
        if line_count == 0 || start_outside || end_outside {
            self.clear();
        }
    }

    /// Starts a new selection at the given position.
    pub fn start(&mut self, line: usize, char_offset: usize)
        ensures
            final(self)@ == SelectionView::started(line, char_offset),
    {
        self.start = Some((line, char_offset));
        self.end = Some((line, char_offset));
        self.is_dragging = true;
    }

    /// Extends the selection end to a new position while dragging.
    pub fn extend(&mut self, line: usize, char_offset: usize)
        ensures
            final(self)@ == old(self)@.extended(line, char_offset),
    {
        if self.is_dragging {
            self.end = Some((line, char_offset));
        }
    }

    /// Finalises the selection (stops dragging) and returns the selected text.
    pub fn finish<F: Fn(usize) -> Option<CopyLine>>(&mut self, get_line: F) -> (text: Option<
        String,
    >)
        requires
            is_source(get_line),
        ensures
            final(self)@ == (SelectionView { dragging: false, ..old(self)@ }),
            !old(self)@.dragging || old(self)@.is_empty() ==> text is None,
            forall|lines: spec_fn(int) -> Option<CopyView>|
                old(self)@.dragging && #[trigger] gives(get_line, lines) ==> text_view(text)
                    == old(self)@.copied(lines),
    {
        if !self.is_dragging {
            return None;
        }
        self.is_dragging = false;
        let text = self.copy_text(get_line);
        assert forall|lines: spec_fn(int) -> Option<CopyView>| #[trigger]
            gives(get_line, lines) implies text_view(text) == old(self)@.copied(lines) by {
            lemma_copied_ignores_dragging(old(self)@, lines);
        }
        text
    }

    /// The ends in order: line and character of the first, then of the last.
    fn ordered(&self) -> (ends: Option<((usize, usize), (usize, usize))>)
        ensures
            ends == (if self@.complete() {
                Some((self@.low(), self@.high()))
            } else {
                None
            }),
    {
        match (self.start, self.end) {
            (Some(start), Some(end)) => {
                if start.0 < end.0 || (start.0 == end.0 && start.1 <= end.1) {
                    Some((start, end))
                } else {
                    Some((end, start))
                }
            },
            _ => None,
        }
    }

    /// Copies the current selection without finalising it. `get_line` gives the
    /// line at an index, `None` where there is none.
    pub fn copy_text<F: Fn(usize) -> Option<CopyLine>>(&self, get_line: F) -> (text: Option<String>)
        requires
            is_source(get_line),
        ensures
            self@.is_empty() ==> text is None,
            text matches Some(t) ==> t@.len() > 0,
            forall|lines: spec_fn(int) -> Option<CopyView>| #[trigger]
                gives(get_line, lines) ==> text_view(text) == self@.copied(lines),
    {
        let (low, high) = match self.ordered() {
            Some(ends) => ends,
            None => {
                return None;
            },
        };
        let mut text: Vec<char> = Vec::new();
        let mut line_idx: usize = low.0;
        let mut more = true;
        while more
            invariant
                is_source(get_line),
                self@.complete(),
                low == self@.low(),
                high == self@.high(),
                low.0 <= line_idx <= high.0,
                self@.is_empty() ==> low == high && text@.len() == 0,
                forall|lines: spec_fn(int) -> Option<CopyView>, line: int|
                    #[trigger] gives(get_line, lines) && low.0 <= line < line_idx
                        ==> #[trigger] lines(line) is Some,
                more ==> forall|lines: spec_fn(int) -> Option<CopyView>| #[trigger]
                    gives(get_line, lines) ==> text@ == self@.copied_before(
                        lines,
                        line_idx as int,
                    ),
                !more ==> line_idx == high.0 && forall|lines: spec_fn(int) -> Option<CopyView>|
                    #[trigger] gives(get_line, lines) ==> lines(line_idx as int) is Some && text@
                        == self@.copied_before(lines, line_idx + 1),
            decreases high.0 - line_idx + if more { 1int } else { 0int },
        {
            let found = get_line(line_idx);
            assert forall|lines: spec_fn(int) -> Option<CopyView>| #[trigger]
                gives(get_line, lines) implies lines(line_idx as int) == copy_view(found) by {}
            let copy = match found {
                Some(copy) => copy,
                None => {
                    assert forall|lines: spec_fn(int) -> Option<CopyView>| #[trigger]
                        gives(get_line, lines) implies !self@.all_there(lines) by {
                        assert(lines(line_idx as int) is None);
                    }
                    return None;
                },
            };
            let chars = chars_of(copy.text.as_str());
            let from: usize = if line_idx == low.0 {
                low.1.saturating_sub(copy.display_prefix_len)
            } else {
                0
            };
            let to: usize = if line_idx == high.0 {
                high.1.saturating_sub(copy.display_prefix_len).min(chars.len())
            } else {
                chars.len()
            };
            let ghost part = self@.selected_part(line_idx as int, copy@);
            let ghost before = text@;
            if from < to {
                if text.len() > 0 && !copy.is_continuation {
                    text.push('\n');
                }
                text.extend_from_slice(vstd::slice::slice_subrange(chars.as_slice(), from, to));
                assert(part == chars@.subrange(from as int, to as int));
                proof {
                    if before.len() > 0 && !copy.is_continuation {
                        assert(text@ =~= before.push('\n') + part);
                    } else {
                        assert(text@ =~= before + part);
                    }
                }
            }
            assert forall|lines: spec_fn(int) -> Option<CopyView>| #[trigger]
                gives(get_line, lines) implies text@ == self@.copied_before(lines, line_idx + 1) by {
                assert(lines(line_idx as int) == Some(copy@));
            }
            if line_idx == high.0 {
                more = false;
            } else {
                line_idx += 1;
            }
        }
        assert forall|lines: spec_fn(int) -> Option<CopyView>| #[trigger]
            gives(get_line, lines) implies self@.all_there(lines) by {}
        if text.len() == 0 {
            None
        } else {
            Some(string_of(text.as_slice()))
        }
    }

    /// Returns the selection range `(start_char, end_char)` for a given line,
    /// or `None` if the line is outside the selection.
    pub fn range_for_line(&self, line_idx: usize, line_len: usize) -> (range: Option<(usize, usize)>)
        ensures
            match range {
                Some((from, to)) => self@.range_for(line_idx, line_len) == Some(
                    (from as int, to as int),
                ),
                None => self@.range_for(line_idx, line_len) is None,
            },
    {
        let (low, high) = match self.ordered() {
            Some(ends) => ends,
            None => {
                return None;
            },
        };
        if line_idx < low.0 || line_idx > high.0 {
            return None;
        }
        let from: usize = if line_idx == low.0 {
            low.1
        } else {
            0
        };
        let to: usize = if line_idx == high.0 {
            high.1.min(line_len)
        } else {
            line_len
        };
        Some((from, to))
    }

    /// Returns `true` if a selection is currently active.
    pub fn is_active(&self) -> (active: bool)
        ensures
            active == (self@.start is Some),
    {
        self.start.is_some()
    }

    /// Returns `true` while the user is actively dragging the mouse.
    pub fn is_dragging(&self) -> (dragging: bool)
        ensures
            dragging == self@.dragging,
    {
        self.is_dragging
    }
}

/// The contents of a text that may be missing.
pub open spec fn text_view(text: Option<String>) -> Option<Seq<char>> {
    match text {
        Some(s) => Some(s@),
        None => None,
    }
}

proof fn lemma_copied_ignores_dragging(view: SelectionView, lines: spec_fn(int) -> Option<CopyView>)
    ensures
        (SelectionView { dragging: false, ..view }).copied(lines) == view.copied(lines),
{
    let still = SelectionView { dragging: false, ..view };
    if view.complete() {
        lemma_copied_before_ignores_dragging(view, lines, view.high().0 + 1);
        assert(still.all_there(lines) == view.all_there(lines));
    }
}

proof fn lemma_copied_before_ignores_dragging(
    view: SelectionView,
    lines: spec_fn(int) -> Option<CopyView>,
    line: int,
)
    ensures
        (SelectionView { dragging: false, ..view }).copied_before(lines, line)
            == view.copied_before(lines, line),
    decreases line,
{
    if line > view.low().0 {
        lemma_copied_before_ignores_dragging(view, lines, line - 1);
    }
}

/// It does not matter from which end a range was dragged.
pub proof fn law_direction_does_not_matter(
    a: (usize, usize),
    b: (usize, usize),
    line: usize,
    len: usize,
)
    ensures
        ({
            let forward = SelectionView { start: Some(a), end: Some(b), dragging: false };
            let backward = SelectionView { start: Some(b), end: Some(a), dragging: false };
            &&& forward.low() == backward.low()
            &&& forward.high() == backward.high()
            &&& forward.range_for(line, len) == backward.range_for(line, len)
        }),
{
}

/// Where nothing is selected there is no range in any line, nothing to copy from any
/// line source, and dragging has no effect.
pub proof fn law_nothing_is_selected(
    line: usize,
    len: usize,
    char_offset: usize,
    lines: spec_fn(int) -> Option<CopyView>,
)
    ensures
        SelectionView::nothing().is_empty(),
        SelectionView::nothing().range_for(line, len) is None,
        SelectionView::nothing().copied(lines) is None,
        SelectionView::nothing().extended(line, char_offset) == SelectionView::nothing(),
{
}

/// A selection that begins is empty: it has a range in its own line only, which ends
/// where it starts or with the line.
pub proof fn law_selection_begins_empty(line: usize, char_offset: usize, other: usize, len: usize)
    ensures
        SelectionView::started(line, char_offset).dragging,
        SelectionView::started(line, char_offset).is_empty(),
        SelectionView::started(line, char_offset).range_for(line, len) == Some(
            (char_offset as int, smaller(char_offset as int, len as int)),
        ),
        other != line ==> SelectionView::started(line, char_offset).range_for(other, len) is None,
{
}

/// Without dragging, the end of a selection stays where it is.
pub proof fn law_extend_needs_dragging(view: SelectionView, line: usize, char_offset: usize)
    requires
        !view.dragging,
    ensures
        view.extended(line, char_offset) == view,
        SelectionView::nothing().extended(line, char_offset) == SelectionView::nothing(),
{
}

/// The columns of a character; one for a control character.
pub open spec fn columns_of(c: char) -> int {
    match width_of_char(c) {
        Some(width) => width as int,
        None => 1,
    }
}

/// How many characters, starting at column `col`, end at or before column
/// `target`.
pub open spec fn chars_before(chars: Seq<char>, col: int, target: int) -> int
    decreases chars.len(),
{
    if chars.len() == 0 || col + columns_of(chars[0]) > target {
        0
    } else {
        1 + chars_before(chars.drop_first(), col + columns_of(chars[0]), target)
    }
}

/// A run of text that starts at `pos`, with the characters from `from` to `to`
/// laid over with a style.
pub open spec fn marked_span(
    text: Seq<char>,
    style: Style,
    pos: int,
    from: int,
    to: int,
    mark: Style,
) -> Seq<(Seq<char>, Style)> {
    let len = text.len() as int;
    let a = less_by(from, pos);
    let b = smaller(to - pos, len);
    if pos + len <= from || pos >= to {
        seq![(text, style)]
    } else {
        (if a > 0 {
            seq![(text.take(a), style)]
        } else {
            Seq::empty()
        }) + (if a < b {
            seq![(text.subrange(a, b), style.patch_spec(mark))]
        } else {
            Seq::empty()
        }) + (if b < len {
            seq![(text.skip(b), style)]
        } else {
            Seq::empty()
        })
    }
}

/// A line with the characters from `from` to `to` laid over with a style.
pub open spec fn marked_line(line: Seq<(Seq<char>, Style)>, from: int, to: int, mark: Style) -> Seq<
    (Seq<char>, Style),
>
    decreases line.len(),
{
    if line.len() == 0 {
        Seq::empty()
    } else {
        let before = line.drop_last();
        marked_line(before, from, to, mark) + marked_span(
            line.last().0,
            line.last().1,
            line_text(before).len() as int,
            from,
            to,
            mark,
        )
    }
}

/// Where a mouse position lies within the text of a bordered widget: row and
/// column from the first cell inside the border, whose text starts
/// `content_offset` columns from the left edge.
pub open spec fn cell_in(area: Rect, row: u16, column: u16, content_offset: u16) -> Option<
    (int, int),
> {
    if area.width > 0 && area.x + content_offset <= column < area.x + less_by(area.width as int, 1)
        && area.y + 1 <= row < area.y + less_by(area.height as int, 1) {
        Some((row - (area.y + 1), column - (area.x + content_offset)))
    } else {
        None
    }
}

impl SelectionState {
    /// Maps a mouse column to a character offset within a line.
    pub fn char_offset_from_col(line: &[Span], target_col: usize) -> (offset: usize)
        ensures
            offset == chars_before(line_text(line_view(line@)), 0, target_col as int),
    {
        let text = text_of_line(line);
        let chars = chars_of(text.as_str());
        let mut col: usize = 0;
        let mut offset: usize = 0;
        assert(chars@.skip(0) =~= chars@);
        while offset < chars.len()
            invariant
                offset <= chars@.len(),
                col <= target_col,
                chars@ == line_text(line_view(line@)),
                chars_before(chars@, 0, target_col as int) == offset + chars_before(
                    chars@.skip(offset as int),
                    col as int,
                    target_col as int,
                ),
            decreases chars@.len() - offset,
        {
            let width: usize = match char_width(chars[offset]) {
                Some(width) => width,
                None => 1,
            };
            assert(chars@.skip(offset as int).drop_first() =~= chars@.skip(offset + 1));
            if width > target_col - col {
                return offset;
            }
            col += width;
            offset += 1;
        }
        offset
    }

    /// Applies a selection style to a character range within a line: spans are
    /// split at the ends of the range.
    pub fn apply_range(line: Vec<Span>, sel_start: usize, sel_end: usize, sel_style: Style) -> (out:
        Vec<Span>)
        requires
            line_text(line_view(line@)).len() <= usize::MAX,
        ensures
            line_view(out@) == marked_line(
                line_view(line@),
                sel_start as int,
                sel_end as int,
                sel_style,
            ),
    {
        let mut out: Vec<Span> = Vec::new();
        let mut pos: usize = 0;
        let mut i: usize = 0;
        let ghost view = line_view(line@);
        assert(line_view(out@) =~= Seq::empty());
        while i < line.len()
            invariant
                i <= line@.len(),
                view == line_view(line@),
                line_text(view).len() <= usize::MAX,
                pos == line_text(view.take(i as int)).len(),
                line_view(out@) == marked_line(
                    view.take(i as int),
                    sel_start as int,
                    sel_end as int,
                    sel_style,
                ),
            decreases line@.len() - i,
        {
            let span = &line[i];
            let chars = chars_of(span.content.as_str());
            let len: usize = chars.len();
            proof {
                let longer = view.take(i + 1);
                assert(longer.drop_last() =~= view.take(i as int));
                assert(longer.last() == span@);
                lemma_prefix_text(view, i + 1);
            }
            let ghost before = line_view(out@);
            Self::push_marked(&mut out, span, &chars, pos, sel_start, sel_end, sel_style);
            pos += len;
            i += 1;
        }
        assert(view.take(i as int) =~= view);
        out
    }

    fn push_marked(
        out: &mut Vec<Span>,
        span: &Span,
        chars: &Vec<char>,
        pos: usize,
        sel_start: usize,
        sel_end: usize,
        sel_style: Style,
    )
        requires
            chars@ == span.content@,
            pos + chars@.len() <= usize::MAX,
        ensures
            line_view(final(out)@) == line_view(old(out)@) + marked_span(
                span@.0,
                span@.1,
                pos as int,
                sel_start as int,
                sel_end as int,
                sel_style,
            ),
    {
        let len: usize = chars.len();
        if pos + len <= sel_start || pos >= sel_end {
            let whole = span.copy();
            proof {
                lemma_line_push(out@, whole);
                assert(line_view(out@) + seq![whole@] =~= line_view(out@).push(whole@));
            }
            out.push(whole);
            return ;
        }
        let a: usize = sel_start.saturating_sub(pos);
        let b: usize = (sel_end - pos).min(len);
        let ghost start = line_view(out@);
        let ghost mut parts: Seq<(Seq<char>, Style)> = Seq::empty();
        assert(start + parts =~= start);
        if a > 0 {
            let text = string_of(vstd::slice::slice_subrange(chars.as_slice(), 0, a));
            let part = Span::styled(text, span.style);
            proof {
                lemma_line_push(out@, part);
                assert(part@.0 =~= chars@.take(a as int));
                parts = seq![part@];
            }
            out.push(part);
            assert(line_view(out@) =~= start + parts);
        }
        let ghost first = parts;
        let ghost after_first = line_view(out@);
        if a < b {
            let text = string_of(vstd::slice::slice_subrange(chars.as_slice(), a, b));
            let part = Span::styled(text, span.style.patch(sel_style));
            proof {
                lemma_line_push(out@, part);
                parts = first + seq![part@];
            }
            out.push(part);
            assert(line_view(out@) =~= start + parts);
        } else {
            proof {
                parts = first + Seq::empty();
                assert(parts =~= first);
            }
        }
        let ghost second = parts;
        if b < len {
            let text = string_of(vstd::slice::slice_subrange(chars.as_slice(), b, len));
            let part = Span::styled(text, span.style);
            proof {
                lemma_line_push(out@, part);
                assert(part@.0 =~= chars@.skip(b as int));
                parts = second + seq![part@];
            }
            out.push(part);
            assert(line_view(out@) =~= start + parts);
        } else {
            proof {
                parts = second + Seq::empty();
                assert(parts =~= second);
            }
        }
    }

    /// Where a mouse position lies within the text of a bordered widget.
    pub fn mouse_to_cell(area: Rect, mouse_row: u16, mouse_col: u16, content_offset: u16) -> (cell:
        Option<(usize, usize)>)
        ensures
            match cell {
                Some((row, col)) => cell_in(area, mouse_row, mouse_col, content_offset) == Some(
                    (row as int, col as int),
                ),
                None => cell_in(area, mouse_row, mouse_col, content_offset) is None,
            },
    {
        if area.width == 0 {
            return None;
        }
        let content_x: u32 = area.x as u32 + content_offset as u32;
        let content_y: u32 = area.y as u32 + 1;
        let content_right: u32 = area.x as u32 + area.width.saturating_sub(1) as u32;
        let content_bottom: u32 = area.y as u32 + area.height.saturating_sub(1) as u32;
        let (row, col): (u32, u32) = (mouse_row as u32, mouse_col as u32);
        if col < content_x || col >= content_right || row < content_y || row >= content_bottom {
            return None;
        }
        Some(((row - content_y) as usize, (col - content_x) as usize))
    }

    /// Converts mouse coordinates to a `(line_index, char_offset)` within a text
    /// widget. `lines` are the displayed lines, the first of them at line index
    /// `offset`.
    pub fn mouse_to_position(
        area: Rect,
        mouse_row: u16,
        mouse_col: u16,
        content_offset: u16,
        offset: usize,
        lines: &[Vec<Span>],
    ) -> (position: Option<(usize, usize)>)
        requires
            offset + lines@.len() <= usize::MAX,
        ensures
            match cell_in(area, mouse_row, mouse_col, content_offset) {
                Some((row, col)) => if row < lines@.len() {
                    position matches Some(p) && p.0 == offset + row && p.1 == chars_before(
                        line_text(line_view(lines@[row]@)),
                        0,
                        col,
                    )
                } else {
                    position is None
                },
                None => position is None,
            },
    {
        match Self::mouse_to_cell(area, mouse_row, mouse_col, content_offset) {
            Some((row, col)) => {
                if row < lines.len() {
                    Some((offset + row, Self::char_offset_from_col(lines[row].as_slice(), col)))
                } else {
                    None
                }
            },
            None => None,
        }
    }
}

/// The text of a line is at least as long as that of its first spans.
proof fn lemma_prefix_text(line: Seq<(Seq<char>, Style)>, n: int)
    requires
        0 <= n <= line.len(),
    ensures
        line_text(line.take(n)).len() <= line_text(line).len(),
    decreases line.len() - n,
{
    if n < line.len() {
        assert(line.take(n + 1).drop_last() =~= line.take(n));
        lemma_prefix_text(line, n + 1);
    } else {
        assert(line.take(n) =~= line);
    }
}

/// The text of two joined parts of a line.
proof fn lemma_text_add(a: Seq<(Seq<char>, Style)>, b: Seq<(Seq<char>, Style)>)
    ensures
        line_text(a + b) == line_text(a) + line_text(b),
    decreases b.len(),
{
    if b.len() == 0 {
        assert(a + b =~= a);
        assert(line_text(a) + line_text(b) =~= line_text(a));
    } else {
        assert((a + b).drop_last() =~= a + b.drop_last());
        lemma_text_add(a, b.drop_last());
        assert(line_text(a + b) =~= line_text(a) + line_text(b));
    }
}

proof fn lemma_single(text: Seq<char>, style: Style)
    ensures
        line_text(seq![(text, style)]) == text,
{
    reveal_with_fuel(line_text, 2);
    let one = seq![(text, style)];
    assert(one.drop_last() =~= Seq::empty());
    assert(line_text(one) =~= text);
}

/// Marking a range changes styles only, never the text.
pub proof fn law_marking_keeps_text(
    line: Seq<(Seq<char>, Style)>,
    from: int,
    to: int,
    mark: Style,
)
    requires
        0 <= from <= to,
    ensures
        line_text(marked_line(line, from, to, mark)) == line_text(line),
    decreases line.len(),
{
    if line.len() > 0 {
        let before = line.drop_last();
        let (text, style) = line.last();
        let pos = line_text(before).len() as int;
        law_marking_keeps_text(before, from, to, mark);
        let span = marked_span(text, style, pos, from, to, mark);
        lemma_text_add(marked_line(before, from, to, mark), span);
        let len = text.len() as int;
        let a = less_by(from, pos);
        let b = smaller(to - pos, len);
        if pos + len <= from || pos >= to {
            lemma_single(text, style);
        } else {
            let s1 = if a > 0 {
                seq![(text.take(a), style)]
            } else {
                Seq::empty()
            };
            let s2 = if a < b {
                seq![(text.subrange(a, b), style.patch_spec(mark))]
            } else {
                Seq::empty()
            };
            let s3 = if b < len {
                seq![(text.skip(b), style)]
            } else {
                Seq::empty()
            };
            lemma_text_add(s1 + s2, s3);
            lemma_text_add(s1, s2);
            lemma_single(text.take(a), style);
            lemma_single(text.subrange(a, b), style.patch_spec(mark));
            lemma_single(text.skip(b), style);
            assert(line_text(span) =~= text);
        }
    }
}

/// The texts of some rows, one after the other.
pub open spec fn rows_text(lines: spec_fn(int) -> Option<CopyView>, from: int, to: int) -> Seq<char>
    decreases to - from,
{
    if to <= from {
        Seq::empty()
    } else {
        rows_text(lines, from, to - 1) + lines(to - 1)->0.text
    }
}

impl SelectionView {
    /// The selection covers the whole of its rows: it starts at the first character of
    /// the first one, or before it, and ends behind the last character of the last one.
    pub open spec fn covers_rows(self, lines: spec_fn(int) -> Option<CopyView>) -> bool {
        &&& self.complete()
        &&& self.all_there(lines)
        &&& self.low().1 <= lines(self.low().0 as int)->0.prefix
        &&& self.high().1 >= lines(self.high().0 as int)->0.prefix + lines(
            self.high().0 as int,
        )->0.text.len()
        &&& forall|line: int|
            self.low().0 <= line <= self.high().0 ==> (#[trigger] lines(line))->0.prefix >= 0
    }

    proof fn lemma_whole_rows(self, lines: spec_fn(int) -> Option<CopyView>, line: int)
        requires
            self.covers_rows(lines),
            forall|k: int|
                self.low().0 < k <= self.high().0 ==> (#[trigger] lines(k))->0.continuation,
            self.low().0 <= line <= self.high().0 + 1,
        ensures
            self.copied_before(lines, line) == rows_text(lines, self.low().0 as int, line),
        decreases line,
    {
        if line > self.low().0 {
            self.lemma_whole_rows(lines, line - 1);
            let copy = lines(line - 1)->0;
            let part = self.selected_part(line - 1, copy);
            assert(part =~= copy.text);
            let before = self.copied_before(lines, line - 1);
            if line - 1 == self.low().0 {
                assert(before.len() == 0);
                assert(Seq::<char>::empty() + part =~= part);
            } else {
                assert(lines(line - 1)->0.continuation);
            }
            if part.len() == 0 {
                assert(before + part =~= before);
            }
        }
    }

    /// Wrapping does not change what is copied: a line whose rows are all selected, each
    /// but the first a continuation, is copied as the texts of its rows without a break
    /// between them.
    pub proof fn law_wrapped_rows_are_copied_as_one_line(
        self,
        lines: spec_fn(int) -> Option<CopyView>,
    )
        requires
            self.covers_rows(lines),
            forall|k: int|
                self.low().0 < k <= self.high().0 ==> (#[trigger] lines(k))->0.continuation,
            rows_text(lines, self.low().0 as int, self.high().0 + 1).len() > 0,
        ensures
            self.copied(lines) == Some(rows_text(lines, self.low().0 as int, self.high().0 + 1)),
    {
        self.lemma_whole_rows(lines, self.high().0 + 1);
    }

    /// What is selected within one row is copied as it stands there, without what is
    /// only displayed in front of it.
    pub proof fn law_part_of_a_row_is_copied(self, lines: spec_fn(int) -> Option<CopyView>)
        requires
            self.complete(),
            self.low().0 == self.high().0,
            lines(self.low().0 as int) is Some,
            0 <= lines(self.low().0 as int)->0.prefix <= self.low().1 < self.high().1,
            self.high().1 <= lines(self.low().0 as int)->0.prefix + lines(
                self.low().0 as int,
            )->0.text.len(),
        ensures
            ({
                let copy = lines(self.low().0 as int)->0;
                self.copied(lines) == Some(
                    copy.text.subrange(
                        self.low().1 - copy.prefix,
                        self.high().1 - copy.prefix,
                    ),
                )
            }),
    {
        let line = self.low().0 as int;
        assert(self.copied_before(lines, line).len() == 0);
        let part = self.selected_part(line, lines(line)->0);
        assert(Seq::<char>::empty() + part =~= part);
        assert(self.copied_before(lines, line + 1) == part);
    }

    /// How many of the rows before `line` begin a line of the copy: those with selected
    /// text that continue no other, and the first with selected text.
    pub open spec fn lines_begun(self, lines: spec_fn(int) -> Option<CopyView>, line: int) -> int
        decreases line,
    {
        if line <= self.low().0 {
            0
        } else {
            let before = self.lines_begun(lines, line - 1);
            let copy = lines(line - 1)->0;
            if self.selected_part(line - 1, copy).len() > 0 && (!copy.continuation || before == 0) {
                before + 1
            } else {
                before
            }
        }
    }

    /// The line breaks in the selected parts of the rows before `line`.
    pub open spec fn breaks_selected(self, lines: spec_fn(int) -> Option<CopyView>, line: int) -> int
        decreases line,
    {
        if line <= self.low().0 {
            0
        } else {
            self.breaks_selected(lines, line - 1) + line_breaks(
                self.selected_part(line - 1, lines(line - 1)->0),
            )
        }
    }

    /// The copy has one line break less than rows that begin a line, besides those that
    /// the selected text itself holds.
    pub proof fn law_breaks_stand_between_lines(
        self,
        lines: spec_fn(int) -> Option<CopyView>,
        line: int,
    )
        ensures
            self.lines_begun(lines, line) >= 0,
            self.copied_before(lines, line).len() > 0 <==> self.lines_begun(lines, line) > 0,
            line_breaks(self.copied_before(lines, line)) == self.breaks_selected(lines, line) + (
            if self.lines_begun(lines, line) > 0 {
                self.lines_begun(lines, line) - 1
            } else {
                0
            }),
        decreases line,
    {
        if line > self.low().0 {
            self.law_breaks_stand_between_lines(lines, line - 1);
            let before = self.copied_before(lines, line - 1);
            let copy = lines(line - 1)->0;
            let part = self.selected_part(line - 1, copy);
            lemma_breaks_add(before, part);
            lemma_breaks_add(before.push('\n'), part);
            assert(before.push('\n').drop_last() =~= before);
            assert(line_breaks(before.push('\n')) == line_breaks(before) + 1);
            if part.len() == 0 {
                assert(line_breaks(part) == 0);
            }
        }
    }

    /// The selected part of each row stands in the copy behind those of the rows before
    /// it, and nothing but a line break comes between.
    pub proof fn law_rows_are_copied_in_order(
        self,
        lines: spec_fn(int) -> Option<CopyView>,
        line: int,
    )
        requires
            line >= self.low().0,
        ensures
            ({
                let before = self.copied_before(lines, line);
                let after = self.copied_before(lines, line + 1);
                let part = self.selected_part(line, lines(line)->0);
                &&& after.len() >= before.len() + part.len()
                &&& after.len() <= before.len() + part.len() + 1
                &&& after.take(before.len() as int) == before
                &&& after.skip(after.len() - part.len()) == part
                &&& after.len() == before.len() + part.len() + 1 ==> after[before.len() as int]
                    == '\n'
            }),
    {
        let before = self.copied_before(lines, line);
        let after = self.copied_before(lines, line + 1);
        let part = self.selected_part(line, lines(line)->0);
        assert(after.take(before.len() as int) =~= before);
        assert(after.skip(after.len() - part.len()) =~= part);
    }

    /// Rows between the first and the last are selected whole, and the marked
    /// characters of a row without a prefix are those that are copied.
    pub proof fn law_marked_text_is_copied(self, line: usize, copy: CopyView)
        requires
            self.complete(),
            copy.prefix == 0,
            copy.text.len() <= usize::MAX,
            self.low().0 <= line <= self.high().0,
        ensures
            self.low().0 < line < self.high().0 ==> self.selected_part(line as int, copy)
                == copy.text,
            ({
                let range = self.range_for(line, copy.text.len() as usize);
                &&& range is Some
                &&& self.selected_part(line as int, copy) == (if (range->0).0 < (range->0).1 {
                    copy.text.subrange((range->0).0, (range->0).1)
                } else {
                    Seq::empty()
                })
            }),
    {
        if self.low().0 < line < self.high().0 {
            assert(copy.text.subrange(0, copy.text.len() as int) =~= copy.text);
            assert(copy.text.len() == 0 ==> copy.text =~= Seq::empty());
        }
    }

    /// A character is marked exactly where it lies between the two ends.
    pub proof fn law_marked_between_the_ends(self, line: usize, len: usize, at: usize)
        requires
            self.complete(),
            at < len,
        ensures
            ({
                let range = self.range_for(line, len);
                (range is Some && (range->0).0 <= at < (range->0).1) <==> (not_after(
                    self.low(),
                    (line, at),
                ) && !not_after(self.high(), (line, at)))
            }),
            self.low() == self.start->0 || self.low() == self.end->0,
            self.high() == self.start->0 || self.high() == self.end->0,
            not_after(self.low(), self.high()),
    {
    }
}

/// The columns that some characters take.
pub open spec fn columns_taken(chars: Seq<char>) -> int
    decreases chars.len(),
{
    if chars.len() == 0 {
        0
    } else {
        columns_of(chars[0]) + columns_taken(chars.drop_first())
    }
}

/// The place under a column is behind as many characters as end at or before it: what
/// stands before takes no more columns, and with one character more it would.
pub proof fn law_columns_lead_to_characters(chars: Seq<char>, col: int, target: int)
    requires
        col <= target,
    ensures
        ({
            let n = chars_before(chars, col, target);
            &&& 0 <= n <= chars.len()
            &&& col + columns_taken(chars.take(n)) <= target
            &&& n < chars.len() ==> col + columns_taken(chars.take(n)) + columns_of(chars[n])
                > target
        }),
    decreases chars.len(),
{
    let n = chars_before(chars, col, target);
    if chars.len() == 0 || col + columns_of(chars[0]) > target {
        assert(chars.take(0).len() == 0);
    } else {
        let rest = chars.drop_first();
        law_columns_lead_to_characters(rest, col + columns_of(chars[0]), target);
        assert(chars.take(n).drop_first() =~= rest.take(n - 1));
        assert(chars.take(n)[0] == chars[0]);
        if n < chars.len() {
            assert(chars[n] == rest[n - 1]);
        }
    }
}

} // verus!
