//! Raw-mode terminal output with a count of the rows it takes.

use vstd::prelude::*;
use vstd::utf8::{decode_utf8, valid_utf8};

use crate::num::smaller;
use crate::text::{char_width, width_of_char};

verus! {

/// `std::str::from_utf8`: the text that some bytes encode, `None` where they
/// are no valid UTF-8.
#[verifier::external_body]
fn utf8_text(bytes: &[u8]) -> (text: Option<&str>)
    ensures
        text is Some <==> valid_utf8(bytes@),
        text matches Some(t) ==> t@ == decode_utf8(bytes@),
{
    std::str::from_utf8(bytes).ok()
}

/// Where the output stands within an escape sequence.
#[derive(Clone, Copy, Debug, PartialEq, Eq, Structural)]
pub enum EscState {
    Normal,
    Esc,
    Csi,
}

/// Collects output with carriage returns added for raw-mode terminals, and
/// counts the rows it takes on a terminal of the given width.
///
/// Escape sequences take no column, and text wraps at the last column.
pub struct LineCounter {
    pub out: Vec<u8>,
    pub lines: u16,
    pub col: u16,
    pub term_width: u16,
    pub esc: EscState,
}

/// What the counter has seen and passed on.
pub struct Counted {
    pub out: Seq<u8>,
    pub lines: int,
    pub col: int,
    pub esc: EscState,
}

/// Nothing seen and nothing passed on yet.
pub open spec fn nothing_counted() -> Counted {
    Counted { out: Seq::empty(), lines: 0, col: 0, esc: EscState::Normal }
}

/// The length of an encoded character, told by its first byte; one for a byte
/// that starts none.
pub open spec fn lead_len(b: u8) -> int {
    if 0xC0 <= b <= 0xDF {
        2
    } else if 0xE0 <= b <= 0xEF {
        3
    } else if 0xF0 <= b <= 0xF7 {
        4
    } else if 0xF8 <= b <= 0xFB {
        5
    } else if 0xFC <= b <= 0xFD {
        6
    } else {
        1
    }
}

/// The columns of what starts at `i`: one for ASCII, the width of the character
/// where the rest is valid UTF-8, else one. A control character takes none.
pub open spec fn unit_width(buf: Seq<u8>, i: int) -> int {
    let rest = buf.skip(i);
    if buf[i] < 0x80 {
        1
    } else if valid_utf8(rest) && decode_utf8(rest).len() > 0 {
        match width_of_char(decode_utf8(rest)[0]) {
            Some(width) => width as int,
            None => 0,
        }
    } else {
        1
    }
}

/// The row count goes up to what its type can hold.
pub open spec fn one_more(lines: int) -> int {
    smaller(lines + 1, u16::MAX as int)
}

/// Passing on the byte or character at `i`: the new state, and where the next
/// one starts.
pub open spec fn step(buf: Seq<u8>, i: int, width: u16, st: Counted) -> (Counted, int) {
    let b = buf[i];
    let passed = st.out.push(b);
    match st.esc {
        EscState::Esc => (
            Counted {
                out: passed,
                esc: if b == 0x5B {
                    EscState::Csi
                } else {
                    EscState::Normal
                },
                ..st
            },
            i + 1,
        ),
        EscState::Csi => (
            Counted {
                out: passed,
                esc: if 0x40 <= b <= 0x7E {
                    EscState::Normal
                } else {
                    EscState::Csi
                },
                ..st
            },
            i + 1,
        ),
        EscState::Normal => if b == 0x1B {
            (Counted { out: passed, esc: EscState::Esc, ..st }, i + 1)
        } else if b == 0x0D {
            (Counted { out: passed, col: 0, ..st }, i + 1)
        } else if b == 0x0A {
            let out = if i == 0 || buf[i - 1] != 0x0D {
                st.out.push(0x0D).push(0x0A)
            } else {
                st.out.push(0x0A)
            };
            (Counted { out, lines: one_more(st.lines), col: 0, ..st }, i + 1)
        } else if 0x80 <= b <= 0xBF {
            (Counted { out: passed, ..st }, i + 1)
        } else {
            let next = smaller(i + lead_len(b), buf.len() as int);
            let out = st.out + buf.subrange(i, next);
            let col = st.col + unit_width(buf, i);
            if col >= width {
                (Counted { out, lines: one_more(st.lines), col: 0, ..st }, next)
            } else {
                (Counted { out, col, ..st }, next)
            }
        },
    }
}

/// Passing on the bytes from `i` on.
pub open spec fn counted_from(buf: Seq<u8>, i: int, width: u16, st: Counted) -> Counted
    decreases buf.len() - i,
{
    if i < 0 || i >= buf.len() {
        st
    } else {
        let (after, next) = step(buf, i, width, st);
        counted_from(buf, next, width, after)
    }
}

fn lead_length(b: u8) -> (len: usize)
    ensures
        len == lead_len(b),
{
    if 0xC0 <= b && b <= 0xDF {
        2
    } else if 0xE0 <= b && b <= 0xEF {
        3
    } else if 0xF0 <= b && b <= 0xF7 {
        4
    } else if 0xF8 <= b && b <= 0xFB {
        5
    } else if 0xFC <= b && b <= 0xFD {
        6
    } else {
        1
    }
}

/// The columns of the byte or character at `i`.
fn width_at(buf: &[u8], i: usize) -> (width: u16)
    requires
        i < buf@.len(),
    ensures
        width == unit_width(buf@, i as int),
        width <= 3,
{
    if buf[i] < 0x80 {
        return 1;
    }
    let rest = vstd::slice::slice_subrange(buf, i, buf.len());
    assert(rest@ =~= buf@.skip(i as int));
    match utf8_text(rest) {
        Some(text) => {
            if text.is_empty() {
                1
            } else {
                let c = text.get_char(0);
                match char_width(c) {
                    Some(width) => width as u16,
                    None => 0,
                }
            }
        },
        None => 1,
    }
}

impl LineCounter {
    /// The state as plain values.
    pub open spec fn counted(&self) -> Counted {
        Counted {
            out: self.out@,
            lines: self.lines as int,
            col: self.col as int,
            esc: self.esc,
        }
    }

    /// A counter that has seen nothing yet.
    pub fn new(term_width: u16) -> (counter: LineCounter)
        ensures
            counter.counted() == nothing_counted(),
            counter.term_width == term_width,
            counter.col <= term_width,
    {
        LineCounter { out: Vec::new(), lines: 0, col: 0, term_width, esc: EscState::Normal }
    }

    /// Passes bytes on.
    pub fn write(&mut self, buf: &[u8])
        requires
            old(self).col <= old(self).term_width,
        ensures
            final(self).counted() == counted_from(
                buf@,
                0,
                old(self).term_width,
                old(self).counted(),
            ),
            final(self).term_width == old(self).term_width,
            final(self).col <= final(self).term_width,
    {
        let mut i: usize = 0;
        while i < buf.len()
            invariant
                i <= buf@.len(),
                self.term_width == old(self).term_width,
                self.col <= self.term_width,
                counted_from(buf@, 0, self.term_width, old(self).counted()) == counted_from(
                    buf@,
                    i as int,
                    self.term_width,
                    self.counted(),
                ),
            decreases buf@.len() - i,
        {
            let ghost before = self.counted();
            let ghost start = i as int;
            let b = buf[i];
            match self.esc {
                EscState::Esc => {
                    self.esc = if b == 0x5B {
                        EscState::Csi
                    } else {
                        EscState::Normal
                    };
                    self.out.push(b);
                    i += 1;
                },
                EscState::Csi => {
                    if 0x40 <= b && b <= 0x7E {
                        self.esc = EscState::Normal;
                    }
                    self.out.push(b);
                    i += 1;
                },
                EscState::Normal => {
                    if b == 0x1B {
                        self.esc = EscState::Esc;
                        self.out.push(b);
                        i += 1;
                    } else if b == 0x0D {
                        self.col = 0;
                        self.out.push(b);
                        i += 1;
                    } else if b == 0x0A {
                        self.lines = self.lines.saturating_add(1);
                        self.col = 0;
                        if i == 0 || buf[i - 1] != 0x0D {
                            self.out.push(0x0D);
                        }
                        self.out.push(0x0A);
                        i += 1;
                    } else if 0x80 <= b && b <= 0xBF {
                        self.out.push(b);
                        i += 1;
                    } else {
                        let width = width_at(buf, i);
                        let len = lead_length(b);
                        let end: usize = if len <= buf.len() - i {
                            i + len
                        } else {
                            buf.len()
                        };
                        while i < end
                            invariant
                                0 <= start <= i <= end <= buf@.len(),
                                self.out@ == before.out + buf@.subrange(start, i as int),
                                self.lines == before.lines,
                                self.col == before.col,
                                self.esc == before.esc,
                                self.term_width == old(self).term_width,
                            decreases end - i,
                        {
                            self.out.push(buf[i]);
                            i += 1;
                            assert(self.out@ =~= before.out + buf@.subrange(start, i as int));
                        }
                        let col: u32 = self.col as u32 + width as u32;
                        if col >= self.term_width as u32 {
                            self.lines = self.lines.saturating_add(1);
                            self.col = 0;
                        } else {
                            self.col = col as u16;
                        }
                    }
                },
            }
            proof {
                let (after, next) = step(buf@, start, self.term_width, before);
                assert(next == i);
                assert(self.counted() == after);
            }
        }
    }
}

/// What a terminal of the given width gets of a text, and the rows it takes.
pub open spec fn counted_text(text: Seq<char>, width: u16) -> Counted {
    counted_from(vstd::utf8::encode_utf8(text), 0, width, nothing_counted())
}

/// What a terminal of the given width gets of a text, and the rows it takes.
pub fn count_text(text: &str, width: u16) -> (counter: LineCounter)
    ensures
        counter.counted() == counted_text(text@, width),
{
    let mut counter = LineCounter::new(width);
    counter.write(text.as_bytes());
    counter
}

/// Bytes without a newline pass unchanged.
pub proof fn law_bytes_pass_unchanged(buf: Seq<u8>, i: int, width: u16, st: Counted)
    requires
        0 <= i <= buf.len(),
        !buf.contains(0x0A),
    ensures
        counted_from(buf, i, width, st).out == st.out + buf.skip(i),
    decreases buf.len() - i,
{
    if i < buf.len() {
        assert(buf.contains(buf[i]));
        let (after, next) = step(buf, i, width, st);
        law_bytes_pass_unchanged(buf, next, width, after);
        assert(after.out =~= st.out + buf.subrange(i, next));
        assert(st.out + buf.subrange(i, next) + buf.skip(next) =~= st.out + buf.skip(i));
    } else {
        assert(st.out + buf.skip(i) =~= st.out);
    }
}

/// No escape sequence starts anywhere.
pub open spec fn no_escape(buf: Seq<u8>) -> bool {
    forall|k: int| 0 <= k < buf.len() ==> #[trigger] buf[k] != 0x1B
}

/// What follows a first byte of an encoded character belongs to that character.
pub open spec fn whole_units(buf: Seq<u8>) -> bool {
    forall|k: int, j: int|
        0 <= k < j < buf.len() && j < k + lead_len(#[trigger] buf[k]) ==> #[trigger] buf[j] >= 0x80
}

proof fn lemma_valid_is_whole(buf: Seq<u8>)
    requires
        valid_utf8(buf),
    ensures
        whole_units(buf),
    decreases buf.len(),
{
    if buf.len() > 0 {
        let n = vstd::utf8::length_of_first_scalar(buf);
        let rest = vstd::utf8::pop_first_scalar(buf);
        lemma_valid_is_whole(rest);
        assert forall|k: int, j: int|
            0 <= k < j < buf.len() && j < k + lead_len(#[trigger] buf[k]) implies #[trigger] buf[j]
            >= 0x80 by {
            if k >= n {
                assert(rest[k - n] == buf[k] && rest[j - n] == buf[j]);
            }
        }
    }
}

/// The first `n` bytes, with a carriage return in front of each newline that does not
/// follow one.
pub open spec fn with_returns(buf: Seq<u8>, n: int) -> Seq<u8>
    decreases n,
{
    if n <= 0 {
        Seq::empty()
    } else if buf[n - 1] == 0x0A && (n == 1 || buf[n - 2] != 0x0D) {
        with_returns(buf, n - 1).push(0x0D).push(0x0A)
    } else {
        with_returns(buf, n - 1).push(buf[n - 1])
    }
}

/// How many of the first `n` bytes are newlines.
pub open spec fn newlines(buf: Seq<u8>, n: int) -> int
    decreases n,
{
    if n <= 0 {
        0
    } else {
        newlines(buf, n - 1) + if buf[n - 1] == 0x0A {
            1int
        } else {
            0
        }
    }
}

proof fn lemma_no_newline(buf: Seq<u8>, i: int, next: int)
    requires
        0 <= i <= next <= buf.len(),
        forall|k: int| i <= k < next ==> #[trigger] buf[k] != 0x0A,
    ensures
        newlines(buf, next) == newlines(buf, i),
    decreases next - i,
{
    if i < next {
        assert(buf[next - 1] != 0x0A);
        lemma_no_newline(buf, i, next - 1);
    }
}

proof fn lemma_copied_on(buf: Seq<u8>, i: int, next: int)
    requires
        0 <= i <= next <= buf.len(),
        forall|k: int| i <= k < next ==> #[trigger] buf[k] != 0x0A,
    ensures
        with_returns(buf, next) == with_returns(buf, i) + buf.subrange(i, next),
    decreases next - i,
{
    if i < next {
        lemma_copied_on(buf, i, next - 1);
        assert(buf[next - 1] != 0x0A);
        assert(buf.subrange(i, next) =~= buf.subrange(i, next - 1).push(buf[next - 1]));
        assert(with_returns(buf, next) =~= with_returns(buf, i) + buf.subrange(i, next));
    } else {
        assert(with_returns(buf, i) + buf.subrange(i, i) =~= with_returns(buf, i));
    }
}

proof fn lemma_passed_on(buf: Seq<u8>, i: int, width: u16, st: Counted, begun: Seq<u8>, rows: int)
    requires
        0 <= i <= buf.len(),
        whole_units(buf),
        no_escape(buf),
        st.esc == EscState::Normal,
        st.out == begun + with_returns(buf, i),
        0 <= rows <= u16::MAX,
        smaller(rows + newlines(buf, i), u16::MAX as int) <= st.lines <= u16::MAX,
    ensures
        counted_from(buf, i, width, st).out == begun + with_returns(buf, buf.len() as int),
        counted_from(buf, i, width, st).esc == EscState::Normal,
        smaller(rows + newlines(buf, buf.len() as int), u16::MAX as int) <= counted_from(
            buf,
            i,
            width,
            st,
        ).lines <= u16::MAX,
    decreases buf.len() - i,
{
    if i < buf.len() {
        let (after, next) = step(buf, i, width, st);
        assert(buf[i] != 0x1B);
        if buf[i] == 0x0A {
            assert(next == i + 1);
            assert(after.out =~= begun + with_returns(buf, next));
        } else {
            assert forall|k: int| i <= k < next implies #[trigger] buf[k] != 0x0A by {
                if k > i {
                    assert(k < i + lead_len(buf[i]));
                    assert(buf[k] >= 0x80);
                }
            }
            lemma_copied_on(buf, i, next);
            assert(after.out =~= st.out + buf.subrange(i, next));
            assert(after.out =~= begun + with_returns(buf, next));
            lemma_no_newline(buf, i, next);
        }
        lemma_passed_on(buf, next, width, after, begun, rows);
    }
}

/// Of text without escape sequences the terminal gets, behind what it got before,
/// every byte in order, and before each newline a carriage return where there was none.
pub proof fn law_only_returns_are_added(buf: Seq<u8>, width: u16, st: Counted)
    requires
        valid_utf8(buf),
        no_escape(buf),
        st.esc == EscState::Normal,
        0 <= st.lines <= u16::MAX,
    ensures
        counted_from(buf, 0, width, st).out == st.out + with_returns(buf, buf.len() as int),
        counted_from(buf, 0, width, st).esc == EscState::Normal,
{
    lemma_valid_is_whole(buf);
    assert(st.out + with_returns(buf, 0) =~= st.out);
    lemma_passed_on(buf, 0, width, st, st.out, st.lines);
}

/// Each newline of text without escape sequences takes a row, as far as rows are
/// counted.
pub proof fn law_newlines_take_rows(buf: Seq<u8>, width: u16, st: Counted)
    requires
        valid_utf8(buf),
        no_escape(buf),
        st.esc == EscState::Normal,
        0 <= st.lines <= u16::MAX,
    ensures
        smaller(st.lines + newlines(buf, buf.len() as int), u16::MAX as int) <= counted_from(
            buf,
            0,
            width,
            st,
        ).lines <= u16::MAX,
{
    lemma_valid_is_whole(buf);
    assert(st.out + with_returns(buf, 0) =~= st.out);
    lemma_passed_on(buf, 0, width, st, st.out, st.lines);
}

proof fn lemma_returns_stand_before(buf: Seq<u8>, n: int, k: int)
    requires
        0 <= n <= buf.len(),
        0 <= k < with_returns(buf, n).len(),
        with_returns(buf, n)[k] == 0x0A,
    ensures
        k > 0,
        with_returns(buf, n)[k - 1] == 0x0D,
    decreases n,
{
    let before = with_returns(buf, n - 1);
    if k < before.len() {
        lemma_returns_stand_before(buf, n - 1, k);
    } else if buf[n - 1] == 0x0A && n > 1 && buf[n - 2] == 0x0D {
        assert(with_returns(buf, n - 1).last() == buf[n - 2]);
    }
}

/// Every newline of text without escape sequences reaches the terminal behind a
/// carriage return.
pub proof fn law_newlines_follow_returns(buf: Seq<u8>, width: u16, st: Counted, k: int)
    requires
        valid_utf8(buf),
        no_escape(buf),
        st.esc == EscState::Normal,
        0 <= st.lines <= u16::MAX,
        st.out.len() <= k < counted_from(buf, 0, width, st).out.len(),
        counted_from(buf, 0, width, st).out[k] == 0x0A,
    ensures
        k > st.out.len(),
        counted_from(buf, 0, width, st).out[k - 1] == 0x0D,
{
    law_only_returns_are_added(buf, width, st);
    lemma_returns_stand_before(buf, buf.len() as int, k - st.out.len());
}

/// Printable characters of one byte each.
pub open spec fn printable(buf: Seq<u8>) -> bool {
    forall|k: int| 0 <= k < buf.len() ==> 0x20 <= #[trigger] buf[k] < 0x7F
}

/// Printable characters fill the rows one cell each: the full rows and the column of the
/// last one account for every character.
pub proof fn law_characters_fill_rows(buf: Seq<u8>, i: int, width: u16, st: Counted)
    requires
        printable(buf),
        0 <= i <= buf.len(),
        st.esc == EscState::Normal,
        0 <= st.col < width,
        0 <= st.lines,
        st.lines + (buf.len() - i) <= u16::MAX,
    ensures
        ({
            let after = counted_from(buf, i, width, st);
            &&& after.lines * width + after.col == st.lines * width + st.col + (buf.len() - i)
            &&& 0 <= after.col < width
            &&& after.esc == EscState::Normal
        }),
    decreases buf.len() - i,
{
    if i < buf.len() {
        let (after, next) = step(buf, i, width, st);
        assert(0x20 <= buf[i] < 0x7F);
        assert(next == i + 1);
        if st.col + 1 >= width {
            assert((st.lines + 1) * width == st.lines * width + width) by (nonlinear_arith);
        }
        law_characters_fill_rows(buf, next, width, after);
    }
}

/// An escape sequence takes no room: from its first byte to the letter that ends it,
/// neither row nor column changes.
pub proof fn law_sequences_take_no_room(buf: Seq<u8>, i: int, width: u16, st: Counted)
    requires
        0 <= i < buf.len(),
        st.esc != EscState::Normal || buf[i] == 0x1B,
    ensures
        ({
            let (after, next) = step(buf, i, width, st);
            &&& next == i + 1
            &&& after.lines == st.lines
            &&& after.col == st.col
            &&& after.out == st.out.push(buf[i])
            &&& st.esc == EscState::Normal ==> after.esc != EscState::Normal
            &&& st.esc == EscState::Csi ==> (after.esc == EscState::Normal <==> 0x40 <= buf[i]
                <= 0x7E)
        }),
{
}

/// Text begins at the left edge behind a return and behind a newline; only the newline
/// takes a row.
pub proof fn law_returns_go_to_the_left_edge(buf: Seq<u8>, i: int, width: u16, st: Counted)
    requires
        0 <= i < buf.len(),
        st.esc == EscState::Normal,
        0 <= st.lines < u16::MAX,
    ensures
        buf[i] == 0x0D ==> step(buf, i, width, st).0.col == 0 && step(buf, i, width, st).0.lines
            == st.lines,
        buf[i] == 0x0A ==> step(buf, i, width, st).0.col == 0 && step(buf, i, width, st).0.lines
            == st.lines + 1,
{
}

/// A character is as many bytes long as its first byte tells.
pub proof fn law_the_first_byte_tells_the_length(b: u8)
    ensures
        b < 0x80 ==> lead_len(b) == 1,
        0xC0 <= b < 0xE0 ==> lead_len(b) == 2,
        0xE0 <= b < 0xF0 ==> lead_len(b) == 3,
        0xF0 <= b < 0xF8 ==> lead_len(b) == 4,
{
}

} // verus!
