//! String helpers of the formatter, on `&str`.
use crate::text::{
    byte_length, cursor_column, cursor_pos, ends_in_gap, ends_with_any, ends_with_gap,
    ends_with_one_of, indent_continuation_lines, indent_lines, indent_of, indent_width,
    lemma_cursor_within_text, line_breaks, min_indent, min_indent_of, push_repeated, repeated,
    strip_common_indent, to_chars, to_string, without_common_indent,
};
use regex::Regex;
use vstd::prelude::*;

verus! {

/// The pattern of one line break: `\r\n`, `\r` or `\n`.
pub const LINE_BREAK_PATTERN: &'static str = "\\r\\n?|\\n";

/// `regex::Regex::new` on `pattern`, then `Regex::find_iter` on `input`, counted. The
/// contract is for the line-break pattern only, which always compiles. It claims that the
/// successive non-overlapping matches are the line breaks of `input`: a `\r` starts a
/// match that takes a directly following `\n` with it, and any other `\n` is a match of
/// its own.
#[verifier::external_body]
fn count_matches(pattern: &str, input: &str) -> (n: usize)
    requires
        pattern@ == LINE_BREAK_PATTERN@,
    ensures
        n == line_breaks(input@),
{
    Regex::new(pattern).unwrap().find_iter(input).count()
}

/// Number of line breaks in `input`; `\n`, `\r` and `\r\n` each count once.
pub fn count_newlines(input: &str) -> (n: usize)
    ensures
        n == line_breaks(input@),
{
    count_matches(LINE_BREAK_PATTERN, input)
}

/// The string that holds `chr` exactly `count` times.
pub fn repeat(chr: char, count: usize) -> (s: String)
    ensures
        s@ == repeated(chr, count as nat),
{
    let mut chars: Vec<char> = Vec::new();
    push_repeated(&mut chars, chr, count as u128);
    assert(chars@ =~= repeated(chr, count as nat));
    to_string(&chars)
}

/// The column at which text appended to `value` would start.
pub fn find_cursor_pos(value: &str) -> (pos: usize)
    ensures
        pos == cursor_column(value@),
{
    // The column is at most the width of the text, which fits a `usize`
    let width = byte_length(value);
    let pos = cursor_pos(&to_chars(value));
    proof {
        lemma_cursor_within_text(value@);
        assert(pos <= width);
    }
    pos as usize
}

/// Whether `value` has at least two characters and ends in a space or a newline.
pub fn already_has_whitespace_before_cursor(value: &str) -> (b: bool)
    ensures
        b == ends_in_gap(value@),
{
    ends_with_gap(&to_chars(value))
}

/// Number of spaces and tabs at the start of `value`.
pub fn indent_len(value: &str) -> (n: usize)
    ensures
        n == indent_width(value@),
{
    indent_of(&to_chars(value))
}

/// The smallest indentation among the lines of `value` that hold a visible character;
/// 0 if there is no such line.
pub fn min_indent_len(value: &str) -> (n: usize)
    ensures
        n == min_indent(value@),
{
    min_indent_of(&to_chars(value))
}

/// `value` with the indentation common to its lines removed.
pub fn trim_indent(value: &str) -> (s: String)
    ensures
        s@ == without_common_indent(value@),
{
    to_string(&strip_common_indent(&to_chars(value)))
}

/// `value` with `continuation_indent` spaces in front of every non-empty line but the
/// first.
pub fn format_indented_multiline(value: &str, continuation_indent: usize) -> (s: String)
    ensures
        s@ == indent_lines(value@, false, continuation_indent as nat),
{
    to_string(&indent_continuation_lines(&to_chars(value), continuation_indent as u128))
}

/// Whether the last character of `value` is one of `chars`.
pub fn last_is_one_of(value: &str, chars: &[char]) -> (b: bool)
    ensures
        b == ends_with_one_of(value@, chars@),
{
    ends_with_any(&to_chars(value), chars)
}

} // verus!
