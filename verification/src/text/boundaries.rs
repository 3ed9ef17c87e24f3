//! Where words and lines begin: the scans that decide how far a backspace
//! by word or by line reaches.

use std::str::Chars;
use vstd::prelude::*;
use vstd::std_specs::iter::IteratorSpec;

verus! {

/// Whether `c` is white space: a character with the Unicode property
/// `White_Space`.
pub open spec fn is_whitespace(c: char) -> bool {
    let code = c as u32;
    ||| 0x09 <= code <= 0x0D
    ||| code == 0x20
    ||| code == 0x85
    ||| code == 0xA0
    ||| code == 0x1680
    ||| 0x2000 <= code <= 0x200A
    ||| code == 0x2028
    ||| code == 0x2029
    ||| code == 0x202F
    ||| code == 0x205F
    ||| code == 0x3000
}

/// Whether `c` ends a line.
pub open spec fn is_newline(c: char) -> bool {
    c == '\n'
}

/// The start of the run that ends at `end`: the index behind the nearest
/// character before `end` at which `breaks` holds, or 0 where there is none.
pub open spec fn run_start(text: Seq<char>, end: int, breaks: spec_fn(char) -> bool) -> int
    decreases end,
{
    if end <= 0 {
        0
    } else if breaks(text[end - 1]) {
        end
    } else {
        run_start(text, end - 1, breaks)
    }
}

/// The start of the word that ends at `end`: the index behind the nearest
/// white space before `end`, or 0. Where white space stands right before
/// `end`, the word is empty.
pub open spec fn word_start(text: Seq<char>, end: int) -> int {
    run_start(text, end, |c: char| is_whitespace(c))
}

/// The start of the line that holds `end`: the index behind the nearest
/// newline before `end`, or 0.
pub open spec fn line_start(text: Seq<char>, end: int) -> int {
    run_start(text, end, |c: char| is_newline(c))
}

/// A run starts at or before its end, holds no breaking character, and
/// starts the text or stands right behind a breaking character.
pub proof fn lemma_run_start(text: Seq<char>, end: int, breaks: spec_fn(char) -> bool)
    requires
        0 <= end <= text.len(),
    ensures
        0 <= run_start(text, end, breaks) <= end,
        forall|i: int| run_start(text, end, breaks) <= i < end ==> !breaks(#[trigger] text[i]),
        run_start(text, end, breaks) == 0 || breaks(text[run_start(text, end, breaks) - 1]),
    decreases end,
{
    if end > 0 && !breaks(text[end - 1]) {
        lemma_run_start(text, end - 1, breaks);
    }
}

/// The run that ends where a run starts is empty: scanning again from the
/// start of a run goes nowhere. The text may have changed from `start` on.
pub proof fn lemma_run_start_again(
    text: Seq<char>,
    end: int,
    breaks: spec_fn(char) -> bool,
    later: Seq<char>,
)
    requires
        0 <= end <= text.len(),
        run_start(text, end, breaks) <= later.len(),
        later.subrange(0, run_start(text, end, breaks)) == text.subrange(
            0,
            run_start(text, end, breaks),
        ),
    ensures
        run_start(later, run_start(text, end, breaks), breaks) == run_start(text, end, breaks),
{
    lemma_run_start(text, end, breaks);
    let start = run_start(text, end, breaks);
    if start > 0 {
        assert(later[start - 1] == later.subrange(0, start)[start - 1]);
    }
}

/// A run does not reach back over a breaking character: it starts at or
/// behind every place before its end that stands right behind one.
pub proof fn lemma_run_start_behind_break(
    text: Seq<char>,
    end: int,
    breaks: spec_fn(char) -> bool,
    place: int,
)
    requires
        0 <= place <= end <= text.len(),
        place == 0 || breaks(text[place - 1]),
    ensures
        place <= run_start(text, end, breaks),
    decreases end,
{
    if end > place && !breaks(text[end - 1]) {
        lemma_run_start_behind_break(text, end - 1, breaks, place);
    }
}

/// In a text without a newline every line starts at 0.
pub proof fn lemma_single_line_starts_at_zero(text: Seq<char>, end: int)
    requires
        0 <= end <= text.len(),
        forall|i: int| 0 <= i < text.len() ==> !is_newline(#[trigger] text[i]),
    ensures
        line_start(text, end) == 0,
{
    lemma_run_start(text, end, |c: char| is_newline(c));
}

/// Whether `c` is white space.
pub fn char_is_whitespace(c: char) -> (white: bool)
    ensures
        white == is_whitespace(c),
{
    let code: u32 = c as u32;
    (0x09 <= code && code <= 0x0D) || code == 0x20 || code == 0x85 || code == 0xA0 || code
        == 0x1680 || (0x2000 <= code && code <= 0x200A) || code == 0x2028 || code == 0x2029
        || code == 0x202F || code == 0x205F || code == 0x3000
}

/// The start of the word that ends at character `end` of `text`.
pub fn word_start_in(text: &str, end: usize) -> (start: usize)
    requires
        end <= text@.len(),
    ensures
        start == word_start(text@, end as int),
{
    broadcast use vstd::string::group_string_axioms;

    let ghost breaks = |c: char| is_whitespace(c);
    let mut chars: Chars<'_> = text.chars();
    let mut start: usize = 0;
    let mut i: usize = 0;
    while i < end
        invariant
            i <= end <= text@.len(),
            chars.remaining() == text@.subrange(i as int, text@.len() as int),
            start == run_start(text@, i as int, breaks),
            breaks == |c: char| is_whitespace(c),
        decreases end - i,
    {
        let c = chars.next();
        i = i + 1;
        if char_is_whitespace(c.unwrap()) {
            start = i;
        }
    }
    start
}

/// The start of the line that holds character index `end` of `text`.
pub fn line_start_in(text: &str, end: usize) -> (start: usize)
    requires
        end <= text@.len(),
    ensures
        start == line_start(text@, end as int),
{
    broadcast use vstd::string::group_string_axioms;

    let ghost breaks = |c: char| is_newline(c);
    let mut chars: Chars<'_> = text.chars();
    let mut start: usize = 0;
    let mut i: usize = 0;
    while i < end
        invariant
            i <= end <= text@.len(),
            chars.remaining() == text@.subrange(i as int, text@.len() as int),
            start == run_start(text@, i as int, breaks),
            breaks == |c: char| is_newline(c),
        decreases end - i,
    {
        let c = chars.next();
        i = i + 1;
        if c.unwrap() == '\n' {
            start = i;
        }
    }
    start
}

} // verus!
