//! Text primitives shared by every front end.
//!
//! Strings are modelled by their sequence of characters.

use unicode_width::{UnicodeWidthChar, UnicodeWidthStr};
use vstd::prelude::*;

verus! {

/// `String::push`: appends one character.
pub assume_specification[ String::push ](s: &mut String, c: char)
    ensures
        final(s)@ == old(s)@.push(c),
;

/// `String::pop`: removes the last character and hands it out; an empty
/// string stays empty and gives `None`.
pub assume_specification[ String::pop ](s: &mut String) -> (last: Option<char>)
    ensures
        old(s)@.len() == 0 ==> last is None && final(s)@ == old(s)@,
        old(s)@.len() > 0 ==> last == Some(old(s)@.last()) && final(s)@ == old(s)@.drop_last(),
;

/// The control characters of Unicode: the C0 and C1 ranges and DEL.
pub open spec fn control(c: char) -> bool {
    c as int <= 0x1F || 0x7F <= c as int <= 0x9F
}

/// `char::is_control`: whether a character is in the general category `Cc`.
pub assume_specification[ char::is_control ](c: char) -> (yes: bool)
    ensures
        yes == control(c),
;

/// A white space character.
pub open spec fn whitespace(c: char) -> bool {
    ||| '\u{9}' <= c <= '\u{d}'
    ||| c == ' '
    ||| c == '\u{85}'
    ||| c == '\u{a0}'
    ||| c == '\u{1680}'
    ||| '\u{2000}' <= c <= '\u{200a}'
    ||| c == '\u{2028}'
    ||| c == '\u{2029}'
    ||| c == '\u{202f}'
    ||| c == '\u{205f}'
    ||| c == '\u{3000}'
}

/// `char::is_whitespace`: the characters with the Unicode property `White_Space`.
pub assume_specification[ char::is_whitespace ](c: char) -> (yes: bool)
    ensures
        yes == whitespace(c),
;

/// A text without the white space at its end.
pub open spec fn trimmed_end(s: Seq<char>) -> Seq<char>
    decreases s.len(),
{
    if s.len() > 0 && whitespace(s.last()) {
        trimmed_end(s.drop_last())
    } else {
        s
    }
}

/// A text without the white space at its start.
pub open spec fn trimmed_start(s: Seq<char>) -> Seq<char>
    decreases s.len(),
{
    if s.len() > 0 && whitespace(s[0]) {
        trimmed_start(s.drop_first())
    } else {
        s
    }
}

/// Removes the white space at the end of a text.
pub fn trim_end(s: &str) -> (out: String)
    ensures
        out@ == trimmed_end(s@),
{
    let chars = chars_of(s);
    let mut end: usize = chars.len();
    assert(chars@.take(end as int) =~= chars@);
    while end > 0 && chars[end - 1].is_whitespace()
        invariant
            end <= chars@.len(),
            trimmed_end(chars@.take(end as int)) == trimmed_end(chars@),
        decreases end,
    {
        assert(chars@.take(end as int).drop_last() =~= chars@.take(end - 1));
        assert(chars@.take(end as int).last() == chars@[end - 1]);
        end -= 1;
    }
    assert(end > 0 ==> chars@.take(end as int).last() == chars@[end - 1]);
    let out = string_of(vstd::slice::slice_subrange(chars.as_slice(), 0, end));
    assert(out@ =~= chars@.take(end as int));
    out
}

/// All characters are ASCII.
pub open spec fn is_ascii(s: Seq<char>) -> bool {
    forall|i: int| 0 <= i < s.len() ==> (#[trigger] s[i]) as int <= 0x7F
}

/// An ASCII letter in lower case; any other character as it is.
pub open spec fn ascii_lower_char(c: char) -> char {
    if 'A' <= c <= 'Z' {
        ((c as u8 + 32) as u8) as char
    } else {
        c
    }
}

/// An ASCII letter in upper case; any other character as it is.
pub open spec fn ascii_upper_char(c: char) -> char {
    if 'a' <= c <= 'z' {
        ((c as u8 - 32) as u8) as char
    } else {
        c
    }
}

/// A text with its ASCII letters in lower case.
pub open spec fn ascii_lower(s: Seq<char>) -> Seq<char> {
    s.map_values(|c: char| ascii_lower_char(c))
}

/// A text with its ASCII letters in upper case.
pub open spec fn ascii_upper(s: Seq<char>) -> Seq<char> {
    s.map_values(|c: char| ascii_upper_char(c))
}

/// What `str::to_lowercase` makes of the characters of a string.
pub uninterp spec fn lowercase_of(s: Seq<char>) -> Seq<char>;

/// `str::to_lowercase`: the Unicode lower-case mapping, a function of the
/// text alone. No character is mapped to nothing, and in ASCII text only the letters
/// change.
#[verifier::external_body]
pub(crate) fn lowercase(s: &str) -> (lower: String)
    ensures
        lower@ == lowercase_of(s@),
        s@.len() > 0 ==> lower@.len() > 0,
        is_ascii(s@) ==> lower@ == ascii_lower(s@),
{
    s.to_lowercase()
}

/// A term as it is looked for, whatever the case.
pub open spec fn lowered(term: Seq<char>) -> Seq<char> {
    if is_ascii(term) {
        ascii_lower(term)
    } else {
        lowercase_of(term)
    }
}

/// An ASCII term is looked for in the same way in upper case.
pub proof fn law_upper_case_is_the_same_term(term: Seq<char>)
    requires
        is_ascii(term),
    ensures
        lowered(ascii_upper(term)) == lowered(term),
{
    let upper = ascii_upper(term);
    assert forall|i: int| 0 <= i < upper.len() implies (#[trigger] upper[i]) as int <= 0x7F by {
        assert(term[i] as int <= 0x7F);
        assert(upper[i] == ascii_upper_char(term[i]));
    }
    assert forall|i: int| 0 <= i < term.len() implies #[trigger] ascii_lower(upper)[i]
        == ascii_lower(term)[i] by {
        assert(term[i] as int <= 0x7F);
    }
    assert(ascii_lower(upper) =~= ascii_lower(term));
}

/// A text that holds a longer ASCII term holds the start of that term too.
pub proof fn law_longer_terms_are_rarer(s: Seq<char>, term: Seq<char>, more: Seq<char>)
    requires
        is_ascii(term),
        is_ascii(more),
        contains_text(s, lowered(term + more)),
    ensures
        contains_text(s, lowered(term)),
{
    let whole = term + more;
    assert forall|i: int| 0 <= i < whole.len() implies (#[trigger] whole[i]) as int <= 0x7F by {
        if i < term.len() {
            assert(whole[i] == term[i]);
        } else {
            assert(whole[i] == more[i - term.len()]);
        }
    }
    let at = choose|at: int| occurs_at(s, lowered(whole), at);
    let short = lowered(term);
    assert(lowered(whole).take(short.len() as int) =~= short);
    assert(s.subrange(at, at + short.len()) =~= s.subrange(at, at + whole.len()).take(
        short.len() as int,
    ));
    assert(occurs_at(s, short, at));
}

/// What `char::to_lowercase` yields for a character.
pub uninterp spec fn lowercase_char(c: char) -> Seq<char>;

/// `char::to_lowercase`: the Unicode lower-case mapping of one character.
#[verifier::external_body]
pub(crate) fn char_lowercase(c: char) -> (lower: Vec<char>)
    ensures
        lower@ == lowercase_char(c),
{
    c.to_lowercase().collect()
}

/// What `UnicodeWidthChar::width` returns for a character.
pub uninterp spec fn width_of_char(c: char) -> Option<usize>;

/// `UnicodeWidthChar::width`: the number of columns a character takes, `None`
/// for a control character. Printable ASCII takes one column and the lookup
/// table never exceeds three.
#[verifier::external_body]
pub(crate) fn char_width(c: char) -> (width: Option<usize>)
    ensures
        width == width_of_char(c),
        width is Some ==> width->0 <= 3,
        ' ' <= c <= '~' ==> width == Some(1usize),
{
    UnicodeWidthChar::width(c)
}

/// What `UnicodeWidthStr::width` returns for a text.
pub uninterp spec fn width_of_text(s: Seq<char>) -> usize;

/// Characters of ASCII that are printed, blanks among them.
pub open spec fn is_printable(s: Seq<char>) -> bool {
    forall|i: int| 0 <= i < s.len() ==> ' ' <= #[trigger] s[i] <= '~'
}

/// `UnicodeWidthStr::width`: the number of columns a text takes. Printable ASCII takes
/// one for each character.
#[verifier::external_body]
pub(crate) fn str_width(s: &str) -> (width: usize)
    ensures
        width == width_of_text(s@),
        is_printable(s@) ==> width == s@.len(),
{
    UnicodeWidthStr::width(s)
}

/// The characters of a string as a vector.
pub fn chars_of(s: &str) -> (v: Vec<char>)
    ensures
        v@ == s@,
{
    let mut v: Vec<char> = Vec::new();
    for c in it: s.chars()
        invariant
            v@ == it.seq().take(it.index() as int),
            it.seq() == s@,
    {
        v.push(c);
    }
    v
}

/// The string made of some characters.
pub fn string_of(chars: &[char]) -> (s: String)
    ensures
        s@ == chars@,
{
    let mut s = String::new();
    let mut i: usize = 0;
    while i < chars.len()
        invariant
            i <= chars.len(),
            s@ == chars@.take(i as int),
        decreases chars.len() - i,
    {
        s.push(chars[i]);
        i += 1;
    }
    s
}

/// Whether two texts are the same.
pub fn same_text(a: &str, b: &str) -> (same: bool)
    ensures
        same == (a@ == b@),
{
    let x = chars_of(a);
    let y = chars_of(b);
    if x.len() != y.len() {
        return false;
    }
    assert(x@.subrange(0, y@.len() as int) =~= x@);
    occurs(x.as_slice(), y.as_slice(), 0)
}

/// A character repeated.
pub open spec fn repeated(c: char, n: nat) -> Seq<char> {
    Seq::new(n, |i: int| c)
}

/// A character repeated `n` times.
pub fn repeat_char(c: char, n: usize) -> (s: String)
    ensures
        s@ == repeated(c, n as nat),
{
    let mut s = String::new();
    let mut i: usize = 0;
    assert(s@ =~= repeated(c, 0));
    while i < n
        invariant
            i <= n,
            s@ == repeated(c, i as nat),
        decreases n - i,
    {
        s.push(c);
        assert(s@ =~= repeated(c, (i + 1) as nat));
        i += 1;
    }
    s
}

/// `sub` stands in `s` at position `at`.
pub open spec fn occurs_at(s: Seq<char>, sub: Seq<char>, at: int) -> bool {
    &&& 0 <= at
    &&& at + sub.len() <= s.len()
    &&& s.subrange(at, at + sub.len()) == sub
}

/// `sub` stands somewhere in `s`.
pub open spec fn contains_text(s: Seq<char>, sub: Seq<char>) -> bool {
    exists|at: int| occurs_at(s, sub, at)
}

/// Whether `sub` stands in `s` at position `at`.
pub fn occurs(s: &[char], sub: &[char], at: usize) -> (found: bool)
    ensures
        found == occurs_at(s@, sub@, at as int),
{
    if at > s.len() || sub.len() > s.len() - at {
        return false;
    }
    let mut i: usize = 0;
    while i < sub.len()
        invariant
            i <= sub.len(),
            at + sub.len() <= s.len(),
            forall|j: int| 0 <= j < i ==> s@[at + j] == sub@[j],
        decreases sub.len() - i,
    {
        if s[at + i] != sub[i] {
            assert(s@.subrange(at as int, at + sub.len())[i as int] != sub@[i as int]);
            return false;
        }
        i += 1;
    }
    assert(s@.subrange(at as int, at + sub.len()) =~= sub@);
    true
}

/// Whether `sub` stands somewhere in `s`.
pub fn contains(s: &str, sub: &str) -> (found: bool)
    ensures
        found == contains_text(s@, sub@),
{
    let s_chars = chars_of(s);
    let sub_chars = chars_of(sub);
    let mut at: usize = 0;
    while at < s_chars.len()
        invariant
            at <= s_chars.len(),
            s_chars@ == s@,
            sub_chars@ == sub@,
            forall|j: int| 0 <= j < at ==> !occurs_at(s@, sub@, j),
        decreases s_chars.len() - at,
    {
        if occurs(s_chars.as_slice(), sub_chars.as_slice(), at) {
            return true;
        }
        at += 1;
    }
    occurs(s_chars.as_slice(), sub_chars.as_slice(), at)
}

/// `term` stands in `s`, upper and lower case taken as the same; the empty term
/// stands everywhere.
pub open spec fn matches_term(s: Seq<char>, term: Seq<char>) -> bool {
    term.len() == 0 || contains_text(lowercase_of(s), lowered(term))
}

/// Whether `term` stands in `s`, upper and lower case taken as the same.
pub fn matches_ignoring_case(s: &str, term: &str) -> (found: bool)
    ensures
        found == matches_term(s@, term@),
{
    if term.is_empty() {
        return true;
    }
    contains(lowercase(s).as_str(), lowercase(term).as_str())
}

/// The character of a decimal digit.
pub open spec fn digit_char(d: int) -> char {
    if d == 0 { '0' } else if d == 1 { '1' } else if d == 2 { '2' } else if d == 3 { '3' }
    else if d == 4 { '4' } else if d == 5 { '5' } else if d == 6 { '6' } else if d == 7 { '7' }
    else if d == 8 { '8' } else { '9' }
}

/// The decimal digits of a number, without leading zeros.
pub open spec fn decimal_text(n: nat) -> Seq<char>
    decreases n,
{
    if n < 10 {
        seq![digit_char(n as int)]
    } else {
        decimal_text(n / 10).push(digit_char((n % 10) as int))
    }
}

fn digit(d: u64) -> (c: char)
    requires
        d < 10,
    ensures
        c == digit_char(d as int),
{
    match d {
        0 => '0',
        1 => '1',
        2 => '2',
        3 => '3',
        4 => '4',
        5 => '5',
        6 => '6',
        7 => '7',
        8 => '8',
        _ => '9',
    }
}

fn push_decimal(s: &mut String, n: u64)
    ensures
        final(s)@ == old(s)@ + decimal_text(n as nat),
    decreases n,
{
    if n >= 10 {
        push_decimal(s, n / 10);
    }
    s.push(digit(n % 10));
    assert(s@ =~= old(s)@ + decimal_text(n as nat));
}

/// The decimal representation of a number.
pub fn decimal(n: u64) -> (s: String)
    ensures
        s@ == decimal_text(n as nat),
{
    let mut s = String::new();
    push_decimal(&mut s, n);
    assert(s@ =~= decimal_text(n as nat));
    s
}

/// The decimal representation of a number that may be negative.
pub open spec fn signed_text(n: int) -> Seq<char> {
    if n < 0 {
        "-"@ + decimal_text((-n) as nat)
    } else {
        decimal_text(n as nat)
    }
}

/// The decimal representation of a number that may be negative.
pub fn signed_decimal(n: i32) -> (s: String)
    ensures
        s@ == signed_text(n as int),
{
    if n < 0 {
        let mut s = "-".to_owned();
        s.append(decimal((-(n as i64)) as u64).as_str());
        s
    } else {
        decimal(n as u64)
    }
}

/// How many characters come before the first newline.
pub open spec fn newline_at(s: Seq<char>) -> nat
    decreases s.len(),
{
    if s.len() == 0 || s[0] == '\n' {
        0
    } else {
        1 + newline_at(s.drop_first())
    }
}

/// A line without the carriage return at its end.
pub open spec fn without_return(line: Seq<char>) -> Seq<char> {
    if line.len() > 0 && line.last() == '\r' {
        line.drop_last()
    } else {
        line
    }
}

/// The lines of a text, without their line endings. Nothing follows a final
/// line ending, and a carriage return counts as part of a line ending only in
/// front of a newline.
pub open spec fn text_lines(s: Seq<char>) -> Seq<Seq<char>>
    decreases s.len(),
{
    let n = newline_at(s);
    if s.len() == 0 {
        Seq::empty()
    } else if n >= s.len() {
        seq![s]
    } else {
        seq![without_return(s.take(n as int))] + text_lines(s.skip(n as int + 1))
    }
}

/// No line of a text holds a newline.
pub proof fn lemma_lines_hold_no_newline(s: Seq<char>)
    ensures
        forall|i: int| 0 <= i < text_lines(s).len() ==> !(#[trigger] text_lines(s)[i]).contains('\n'),
    decreases s.len(),
{
    let n = newline_at(s);
    crate::highlight::lemma_newline_at(s);
    if s.len() > 0 {
        if n < s.len() {
            let head = without_return(s.take(n as int));
            let rest = s.skip(n as int + 1);
            lemma_lines_hold_no_newline(rest);
            assert(!head.contains('\n')) by {
                if head.contains('\n') {
                    let k = choose|k: int| 0 <= k < head.len() && head[k] == '\n';
                    assert(s[k] == '\n');
                }
            }
            assert forall|i: int| 0 <= i < text_lines(s).len() implies !(#[trigger] text_lines(
                s,
            )[i]).contains('\n') by {
                if i > 0 {
                    assert(text_lines(s)[i] == text_lines(rest)[i - 1]);
                }
            }
        } else {
            assert(!s.contains('\n')) by {
                if s.contains('\n') {
                    let k = choose|k: int| 0 <= k < s.len() && s[k] == '\n';
                    assert(false);
                }
            }
        }
    }
}

/// A text without newlines is one line, or none where it is empty.
pub proof fn lemma_one_line(s: Seq<char>)
    requires
        !s.contains('\n'),
    ensures
        text_lines(s) == (if s.len() == 0 {
            Seq::<Seq<char>>::empty()
        } else {
            seq![s]
        }),
        newline_at(s) == s.len(),
    decreases s.len(),
{
    if s.len() > 0 {
        assert(s[0] != '\n') by {
            assert(s.contains(s[0]));
        }
        assert(!s.drop_first().contains('\n')) by {
            if s.drop_first().contains('\n') {
                let i = choose|i: int| 0 <= i < s.drop_first().len() && s.drop_first()[i] == '\n';
                assert(s[i + 1] == '\n');
            }
        }
        lemma_one_line(s.drop_first());
    }
    assert(text_lines(s) =~= if s.len() == 0 {
        Seq::<Seq<char>>::empty()
    } else {
        seq![s]
    });
}

/// The contents of a list of strings.
pub open spec fn strings_view(lines: Seq<String>) -> Seq<Seq<char>> {
    lines.map_values(|line: String| line@)
}

/// Where the first newline is.
pub proof fn lemma_newline_is(s: Seq<char>, n: nat)
    requires
        n <= s.len(),
        forall|i: int| 0 <= i < n ==> #[trigger] s[i] != '\n',
        n < s.len() ==> s[n as int] == '\n',
    ensures
        newline_at(s) == n,
    decreases n,
{
    if n > 0 {
        assert(s[0] != '\n');
        assert forall|i: int| 0 <= i < n - 1 implies #[trigger] s.drop_first()[i] != '\n' by {
            assert(s[i + 1] != '\n');
        }
        lemma_newline_is(s.drop_first(), (n - 1) as nat);
    }
}

/// The lines of a text, without their line endings.
pub fn lines_of(s: &str) -> (lines: Vec<String>)
    ensures
        strings_view(lines@) == text_lines(s@),
{
    let chars = chars_of(s);
    let mut lines: Vec<String> = Vec::new();
    let mut start: usize = 0;
    let mut i: usize = 0;
    assert(strings_view(lines@) + text_lines(s@.skip(0)) =~= text_lines(s@)) by {
        assert(s@.skip(0) =~= s@);
    }
    while i < chars.len()
        invariant
            start <= i <= chars@.len(),
            chars@ == s@,
            forall|k: int| start <= k < i ==> #[trigger] chars@[k] != '\n',
            strings_view(lines@) + text_lines(s@.skip(start as int)) == text_lines(s@),
        decreases chars@.len() - i,
    {
        if chars[i] == '\n' {
            let end: usize = if i > start && chars[i - 1] == '\r' {
                i - 1
            } else {
                i
            };
            let line = string_of(vstd::slice::slice_subrange(chars.as_slice(), start, end));
            let ghost before = strings_view(lines@);
            proof {
                let rest = s@.skip(start as int);
                let n = (i - start) as nat;
                assert forall|k: int| 0 <= k < n implies #[trigger] rest[k] != '\n' by {
                    assert(chars@[start + k] != '\n');
                }
                lemma_newline_is(rest, n);
                assert(rest.take(n as int) =~= s@.subrange(start as int, i as int));
                assert(without_return(rest.take(n as int)) =~= line@);
                assert(rest.skip(n as int + 1) =~= s@.skip(i + 1));
                assert(before.push(line@) + text_lines(s@.skip(i + 1)) =~= before + (seq![line@]
                    + text_lines(s@.skip(i + 1))));
            }
            lines.push(line);
            assert(strings_view(lines@) =~= before.push(line@));
            start = i + 1;
        }
        i += 1;
    }
    if start < chars.len() {
        let line = string_of(vstd::slice::slice_subrange(chars.as_slice(), start, chars.len()));
        let ghost before = strings_view(lines@);
        proof {
            let rest = s@.skip(start as int);
            assert forall|k: int| 0 <= k < rest.len() implies #[trigger] rest[k] != '\n' by {
                assert(chars@[start + k] != '\n');
            }
            lemma_newline_is(rest, rest.len());
            assert(line@ =~= rest);
            assert(text_lines(rest) =~= seq![line@]);
        }
        lines.push(line);
        assert(strings_view(lines@) =~= before.push(line@));
        assert(before.push(line@) =~= before + seq![line@]);
    } else {
        assert(s@.skip(start as int).len() == 0);
        assert(strings_view(lines@) + Seq::<Seq<char>>::empty() =~= strings_view(lines@));
    }
    lines
}

/// Texts with a separator between each two.
pub open spec fn joined_text(parts: Seq<Seq<char>>, separator: Seq<char>) -> Seq<char>
    decreases parts.len(),
{
    if parts.len() == 0 {
        Seq::empty()
    } else if parts.len() == 1 {
        parts[0]
    } else {
        joined_text(parts.drop_last(), separator) + separator + parts.last()
    }
}

/// The first `count` strings with a separator between each two.
pub fn join_first(parts: &Vec<String>, count: usize, separator: &str) -> (s: String)
    ensures
        s@ == joined_text(
            strings_view(parts@).take(
                if count < parts@.len() {
                    count as int
                } else {
                    parts@.len() as int
                },
            ),
            separator@,
        ),
{
    let n: usize = count.min(parts.len());
    let mut s = String::new();
    let mut i: usize = 0;
    let ghost view = strings_view(parts@);
    while i < n
        invariant
            i <= n <= parts@.len(),
            view == strings_view(parts@),
            s@ == joined_text(view.take(i as int), separator@),
        decreases n - i,
    {
        if i > 0 {
            s.append(separator);
        }
        s.append(parts[i].as_str());
        proof {
            let longer = view.take(i + 1);
            assert(longer.drop_last() =~= view.take(i as int));
            assert(longer.last() == parts@[i as int]@);
            if i == 0 {
                assert(longer[0] == parts@[0]@);
            }
            assert(s@ =~= joined_text(longer, separator@));
        }
        i += 1;
    }
    s
}

/// The value of a decimal digit.
pub open spec fn digit_value(c: char) -> int {
    c as int - '0' as int
}

/// A decimal digit.
pub open spec fn is_digit(c: char) -> bool {
    '0' <= c <= '9'
}

/// The number that decimal digits stand for.
pub open spec fn decimal_value(s: Seq<char>) -> int
    decreases s.len(),
{
    if s.len() == 0 {
        0
    } else {
        10 * decimal_value(s.drop_last()) + digit_value(s.last())
    }
}

/// The digits of a number stand for that number; they do not start with a zero, unless
/// they are just that.
pub proof fn law_digits_stand_for_the_number(n: nat)
    ensures
        decimal_value(decimal_text(n)) == n,
        decimal_text(n).len() > 0,
        forall|i: int| 0 <= i < decimal_text(n).len() ==> is_digit(#[trigger] decimal_text(n)[i]),
        n > 0 ==> decimal_text(n)[0] != '0',
    decreases n,
{
    if n < 10 {
        assert(decimal_text(n).drop_last() =~= Seq::empty());
        assert(decimal_value(Seq::<char>::empty()) == 0);
    } else {
        law_digits_stand_for_the_number(n / 10);
        assert(decimal_text(n).drop_last() =~= decimal_text(n / 10));
        assert(decimal_text(n)[0] == decimal_text(n / 10)[0]);
    }
}

/// Different numbers have different digits.
pub proof fn law_digits_differ(a: nat, b: nat)
    requires
        decimal_text(a) == decimal_text(b),
    ensures
        a == b,
{
    law_digits_stand_for_the_number(a);
    law_digits_stand_for_the_number(b);
}

/// A number that may be negative is shown by its digits, behind a minus where it is
/// negative.
pub proof fn law_signs_are_shown(n: int)
    ensures
        n >= 0 ==> decimal_value(signed_text(n)) == n && signed_text(n)[0] != '-',
        n < 0 ==> signed_text(n)[0] == '-' && decimal_value(signed_text(n).drop_first()) == -n,
{
    if n < 0 {
        reveal_strlit("-");
        law_digits_stand_for_the_number((-n) as nat);
        assert(signed_text(n).drop_first() =~= decimal_text((-n) as nat));
    } else {
        law_digits_stand_for_the_number(n as nat);
        assert(is_digit(decimal_text(n as nat)[0]));
    }
}

/// The line breaks of a text.
pub open spec fn line_breaks(s: Seq<char>) -> int
    decreases s.len(),
{
    if s.len() == 0 {
        0
    } else {
        line_breaks(s.drop_last()) + if s.last() == '\n' {
            1int
        } else {
            0
        }
    }
}

/// Line breaks add up.
pub proof fn lemma_breaks_add(s: Seq<char>, t: Seq<char>)
    ensures
        line_breaks(s + t) == line_breaks(s) + line_breaks(t),
    decreases t.len(),
{
    if t.len() == 0 {
        assert(s + t =~= s);
    } else {
        lemma_breaks_add(s, t.drop_last());
        assert((s + t).drop_last() =~= s + t.drop_last());
        assert((s + t).last() == t.last());
    }
}

/// A text stands between what is before and behind it.
pub proof fn lemma_stands_between(before: Seq<char>, s: Seq<char>, behind: Seq<char>)
    ensures
        contains_text(before + s + behind, s),
        occurs_at(before + s + behind, s, before.len() as int),
{
    assert((before + s + behind).subrange(before.len() as int, (before.len() + s.len()) as int)
        =~= s);
    assert(occurs_at(before + s + behind, s, before.len() as int));
}

/// Digits hold no line break.
pub proof fn lemma_digits_do_not_break(n: nat)
    ensures
        line_breaks(decimal_text(n)) == 0,
    decreases n,
{
    let digits = decimal_text(n);
    law_digits_stand_for_the_number(n);
    assert(is_digit(digits[digits.len() - 1]));
    if n < 10 {
        assert(digits.drop_last() =~= Seq::empty());
        assert(line_breaks(Seq::<char>::empty()) == 0);
    } else {
        lemma_digits_do_not_break(n / 10);
        assert(digits.drop_last() =~= decimal_text(n / 10));
    }
}

/// Trimming takes white space away from the end, all of it and nothing else.
pub proof fn law_only_white_space_is_trimmed(s: Seq<char>)
    ensures
        trimmed_end(s).len() <= s.len(),
        s.take(trimmed_end(s).len() as int) == trimmed_end(s),
        forall|i: int| trimmed_end(s).len() <= i < s.len() ==> whitespace(#[trigger] s[i]),
        trimmed_end(s).len() > 0 ==> !whitespace(trimmed_end(s).last()),
    decreases s.len(),
{
    if s.len() > 0 && whitespace(s.last()) {
        let less = s.drop_last();
        law_only_white_space_is_trimmed(less);
        let n = trimmed_end(less).len() as int;
        assert(s.take(n) =~= less.take(n));
        assert forall|i: int| n <= i < s.len() implies whitespace(#[trigger] s[i]) by {
            if i < less.len() {
                assert(whitespace(less[i]));
            }
        }
    } else {
        assert(s.take(s.len() as int) =~= s);
    }
}

/// Some lines, each with a line break behind it.
pub open spec fn broken_lines(lines: Seq<Seq<char>>) -> Seq<char>
    decreases lines.len(),
{
    if lines.len() == 0 {
        Seq::empty()
    } else {
        lines[0] + seq!['\n'] + broken_lines(lines.drop_first())
    }
}

/// The lines of a text are its characters between line breaks: put together again they
/// give the text.
pub proof fn law_lines_give_the_text(s: Seq<char>)
    requires
        !s.contains('\r'),
        s.len() > 0 ==> s.last() == '\n',
    ensures
        broken_lines(text_lines(s)) == s,
    decreases s.len(),
{
    if s.len() > 0 {
        let n = newline_at(s) as int;
        crate::highlight::lemma_newline_at(s);
        assert(s[s.len() - 1] == '\n');
        assert(n < s.len());
        let first = s.take(n);
        let rest = s.skip(n + 1);
        if first.len() > 0 {
            assert(s.contains(s[n - 1]));
            assert(first.last() == s[n - 1]);
        }
        assert(without_return(first) == first);
        assert(!rest.contains('\r')) by {
            if rest.contains('\r') {
                let k = rest.index_of('\r');
                assert(s[k + n + 1] == '\r');
            }
        }
        if rest.len() > 0 {
            assert(rest.last() == s.last());
        }
        law_lines_give_the_text(rest);
        assert(text_lines(s).drop_first() =~= text_lines(rest));
        assert(text_lines(s)[0] == first);
        assert(s =~= first + seq!['\n'] + rest);
    }
}

/// Parts are joined in order, with the separator between them and nowhere else.
pub proof fn law_parts_are_joined_in_order(
    parts: Seq<Seq<char>>,
    last: Seq<char>,
    separator: Seq<char>,
)
    ensures
        joined_text(Seq::empty(), separator).len() == 0,
        joined_text(seq![last], separator) == last,
        parts.len() > 0 ==> joined_text(parts.push(last), separator) == joined_text(
            parts,
            separator,
        ) + separator + last,
{
    assert(parts.push(last).drop_last() =~= parts);
}

/// A text holds another where its characters stand in it, one after the other.
pub proof fn law_contained_texts_stand_somewhere(s: Seq<char>, sub: Seq<char>)
    ensures
        contains_text(s, s),
        contains_text(s, Seq::empty()),
        contains_text(s, sub) ==> sub.len() <= s.len(),
        contains_text(s, sub) <==> exists|before: Seq<char>, behind: Seq<char>| #[trigger]
            (before + sub + behind) == s,
{
    assert(s.subrange(0, s.len() as int) =~= s);
    assert(occurs_at(s, s, 0));
    assert(s.subrange(0, 0) =~= Seq::empty());
    assert(occurs_at(s, Seq::empty(), 0));
    if contains_text(s, sub) {
        let at = choose|at: int| occurs_at(s, sub, at);
        let before = s.take(at);
        let behind = s.skip(at + sub.len());
        assert(before + sub + behind =~= s);
    }
    if exists|before: Seq<char>, behind: Seq<char>| #[trigger] (before + sub + behind) == s {
        let (before, behind) = choose|before: Seq<char>, behind: Seq<char>| #[trigger]
            (before + sub + behind) == s;
        lemma_stands_between(before, sub, behind);
    }
}

/// Trimming the start takes white space away from there, all of it and nothing else.
pub proof fn law_only_white_space_is_trimmed_before(s: Seq<char>)
    ensures
        trimmed_start(s).len() <= s.len(),
        s.skip(s.len() - trimmed_start(s).len()) == trimmed_start(s),
        forall|i: int| 0 <= i < s.len() - trimmed_start(s).len() ==> whitespace(#[trigger] s[i]),
        trimmed_start(s).len() > 0 ==> !whitespace(trimmed_start(s)[0]),
    decreases s.len(),
{
    if s.len() > 0 && whitespace(s[0]) {
        let rest = s.drop_first();
        law_only_white_space_is_trimmed_before(rest);
        let k = s.len() - trimmed_start(s).len();
        assert(s.skip(k) =~= rest.skip(k - 1));
        assert forall|i: int| 0 <= i < k implies whitespace(#[trigger] s[i]) by {
            if i > 0 {
                assert(whitespace(rest[i - 1]));
            }
        }
    } else {
        assert(s.skip(0) =~= s);
    }
}

/// A text that is contained in another is contained in a longer one.
pub proof fn lemma_contained_in_more(s: Seq<char>, more: Seq<char>, t: Seq<char>)
    requires
        contains_text(s, t),
    ensures
        contains_text(s + more, t),
        contains_text(more + s, t),
{
    let at = choose|at: int| occurs_at(s, t, at);
    assert((s + more).subrange(at, at + t.len()) =~= s.subrange(at, at + t.len()));
    assert(occurs_at(s + more, t, at));
    let k = more.len() as int + at;
    assert((more + s).subrange(k, k + t.len()) =~= s.subrange(at, at + t.len()));
    assert(occurs_at(more + s, t, k));
}

} // verus!
