//! Character-sequence primitives.
//!
//! Text is modelled as `Seq<char>`; executable code holds it as `Vec<char>` so that the
//! end of a growing buffer can be inspected in constant time. Columns and widths are
//! counted in bytes of UTF-8, so that they agree with byte offsets into a source text.
use vstd::prelude::*;
use vstd::utf8::{char_is_scalar, encode_scalar, encode_utf8};

verus! {

/// Horizontal blanks: the characters that make up indentation.
pub open spec fn is_blank(c: char) -> bool {
    c == ' ' || c == '\t'
}

/// Characters with the Unicode `White_Space` property.
pub open spec fn is_whitespace(c: char) -> bool {
    let v = c as u32;
    ||| 0x09 <= v <= 0x0D
    ||| v == 0x20
    ||| v == 0x85
    ||| v == 0xA0
    ||| v == 0x1680
    ||| 0x2000 <= v <= 0x200A
    ||| v == 0x2028
    ||| v == 0x2029
    ||| v == 0x202F
    ||| v == 0x205F
    ||| v == 0x3000
}

/// The sequence that holds `c` exactly `n` times.
pub open spec fn repeated(c: char, n: nat) -> Seq<char> {
    Seq::new(n, |i: int| c)
}

/// A line break starts at position `i`: a `\r`, or a `\n` that does not complete a `\r\n`.
pub open spec fn line_break_starts_at(s: Seq<char>, i: int) -> bool {
    &&& 0 <= i < s.len()
    &&& (s[i] == '\r' || (s[i] == '\n' && !(i > 0 && s[i - 1] == '\r')))
}

/// Number of line breaks that start before position `n`.
pub open spec fn line_breaks_below(s: Seq<char>, n: int) -> nat
    decreases n,
{
    if n <= 0 {
        0
    } else {
        line_breaks_below(s, n - 1) + if line_break_starts_at(s, n - 1) {
            1nat
        } else {
            0nat
        }
    }
}

/// Number of line breaks in `s`, where `\n`, `\r` and `\r\n` each count once.
pub open spec fn line_breaks(s: Seq<char>) -> nat {
    line_breaks_below(s, s.len() as int)
}

/// Number of bytes that `c` takes in UTF-8.
pub open spec fn char_width(c: char) -> nat {
    let v = c as u32;
    if v <= 0x7F {
        1
    } else if v <= 0x7FF {
        2
    } else if v <= 0xFFFF {
        3
    } else {
        4
    }
}

/// Number of bytes that `s` takes in UTF-8.
pub open spec fn text_width(s: Seq<char>) -> nat
    decreases s.len(),
{
    if s.len() == 0 {
        0
    } else {
        char_width(s[0]) + text_width(s.drop_first())
    }
}

/// The column of the cursor after `s`: the width of what follows the last `\n` of `s`
/// (of all of `s` if there is none).
pub open spec fn cursor_column(s: Seq<char>) -> nat
    decreases s.len(),
{
    if s.len() == 0 || s.last() == '\n' {
        0
    } else {
        cursor_column(s.drop_last()) + char_width(s.last())
    }
}

/// `s` has at least two characters and ends in a space or a newline.
pub open spec fn ends_in_gap(s: Seq<char>) -> bool {
    s.len() >= 2 && (s.last() == ' ' || s.last() == '\n')
}

/// `s` is not empty and its last character is one of `chars`.
pub open spec fn ends_with_one_of(s: Seq<char>, chars: Seq<char>) -> bool {
    s.len() > 0 && chars.contains(s.last())
}

/// Number of blanks at the start of `s`.
pub open spec fn indent_width(s: Seq<char>) -> nat
    decreases s.len(),
{
    if s.len() > 0 && is_blank(s[0]) {
        1 + indent_width(s.drop_first())
    } else {
        0
    }
}

/// Every character of `s` is whitespace.
pub open spec fn is_all_whitespace(s: Seq<char>) -> bool {
    forall|i: int| 0 <= i < s.len() ==> is_whitespace(#[trigger] s[i])
}

/// `s` without its trailing whitespace.
pub open spec fn trim_end(s: Seq<char>) -> Seq<char>
    decreases s.len(),
{
    if s.len() > 0 && is_whitespace(s.last()) {
        trim_end(s.drop_last())
    } else {
        s
    }
}

/// `s` without its leading whitespace.
pub open spec fn trim_start(s: Seq<char>) -> Seq<char>
    decreases s.len(),
{
    if s.len() > 0 && is_whitespace(s[0]) {
        trim_start(s.drop_first())
    } else {
        s
    }
}

/// `s` without its leading and trailing whitespace.
pub open spec fn trim(s: Seq<char>) -> Seq<char> {
    trim_start(trim_end(s))
}

/// Position of the first `\n` in `s`, or the length of `s` if it has none.
pub open spec fn first_newline(s: Seq<char>) -> nat
    decreases s.len(),
{
    if s.len() == 0 || s[0] == '\n' {
        0
    } else {
        1 + first_newline(s.drop_first())
    }
}

/// `line` without one trailing `\r`.
pub open spec fn without_carriage_return(line: Seq<char>) -> Seq<char> {
    if line.len() > 0 && line.last() == '\r' {
        line.drop_last()
    } else {
        line
    }
}

/// The lines of `s`. A line ends at `\n` or at the end of the text; the `\n` and a `\r`
/// directly before it are not part of the line. Text after the last `\n` is a line of its
/// own unless it is empty.
pub open spec fn lines(s: Seq<char>) -> Seq<Seq<char>>
    decreases s.len(),
{
    if s.len() == 0 {
        Seq::empty()
    } else {
        let n = first_newline(s) as int;
        if n < s.len() {
            seq![without_carriage_return(s.take(n))] + lines(s.skip(n + 1))
        } else {
            seq![s]
        }
    }
}

/// The smaller of two optional widths, where `None` stands for "no line".
pub open spec fn least(a: Option<nat>, b: Option<nat>) -> Option<nat> {
    match (a, b) {
        (None, _) => b,
        (_, None) => a,
        (Some(x), Some(y)) => Some(if x <= y { x } else { y }),
    }
}

/// The smallest indentation among the given lines that hold a visible character.
pub open spec fn least_indent(ls: Seq<Seq<char>>) -> Option<nat>
    decreases ls.len(),
{
    if ls.len() == 0 {
        None
    } else {
        let here = if is_all_whitespace(ls[0]) {
            None
        } else {
            Some(indent_width(ls[0]))
        };
        least(here, least_indent(ls.drop_first()))
    }
}

/// The indentation shared by all lines of `s` that hold a visible character; 0 without
/// such a line.
pub open spec fn min_indent(s: Seq<char>) -> nat {
    match least_indent(lines(s)) {
        Some(n) => n,
        None => 0,
    }
}

/// `s` without the first `limit` blanks of each line, where `seen` blanks of the current
/// line have been passed already.
pub open spec fn strip_blanks(s: Seq<char>, seen: nat, limit: nat) -> Seq<char>
    decreases s.len(),
{
    if s.len() == 0 {
        s
    } else if is_blank(s[0]) {
        let rest = strip_blanks(s.drop_first(), seen + 1, limit);
        if seen + 1 > limit {
            seq![s[0]] + rest
        } else {
            rest
        }
    } else {
        seq![s[0]] + strip_blanks(s.drop_first(), if s[0] == '\n' { 0 } else { seen }, limit)
    }
}

/// `s` with the indentation common to its lines removed.
pub open spec fn without_common_indent(s: Seq<char>) -> Seq<char> {
    strip_blanks(s, 0, min_indent(s))
}

/// `s` with `indent` spaces put in front of every line but the first; empty lines get
/// none. `pending` says that a newline has just been passed.
pub open spec fn indent_lines(s: Seq<char>, pending: bool, indent: nat) -> Seq<char>
    decreases s.len(),
{
    if s.len() == 0 {
        s
    } else {
        let lead = if pending && s[0] != '\n' {
            repeated(' ', indent)
        } else {
            Seq::<char>::empty()
        };
        lead + seq![s[0]] + indent_lines(s.drop_first(), s[0] == '\n', indent)
    }
}

/// `s` with every line stripped of trailing whitespace and ended by `\n`.
pub open spec fn join_trimmed(ls: Seq<Seq<char>>) -> Seq<char>
    decreases ls.len(),
{
    if ls.len() == 0 {
        Seq::empty()
    } else {
        join_trimmed(ls.drop_last()) + trim_end(ls.last()) + seq!['\n']
    }
}

/// The views of a sequence of character vectors.
pub open spec fn views(v: Seq<Vec<char>>) -> Seq<Seq<char>> {
    v.map_values(|line: Vec<char>| line@)
}

/// `String::push` of std: the contract claims that the string afterwards holds the
/// characters it held before, followed by `c`.
#[verifier::external_body]
pub(crate) fn push_char(s: &mut String, c: char)
    ensures
        final(s)@ == old(s)@.push(c),
{
    s.push(c)
}

/// The characters of `value`.
pub fn to_chars(value: &str) -> (chars: Vec<char>)
    ensures
        chars@ == value@,
{
    let mut chars: Vec<char> = Vec::new();
    for c in it: value.chars()
        invariant
            chars@ == it.seq().take(it.index() as int),
            it.seq() == value@,
    {
        chars.push(c);
    }
    chars
}

/// The string made of `chars`.
pub fn to_string(chars: &Vec<char>) -> (s: String)
    ensures
        s@ == chars@,
{
    let mut s = String::new();
    let mut i: usize = 0;
    while i < chars.len()
        invariant
            i <= chars.len(),
            s@ == chars@.take(i as int),
        decreases chars.len() - i,
    {
        push_char(&mut s, chars[i]);
        i += 1;
    }
    s
}

/// Whether `c` is whitespace.
pub fn char_is_whitespace(c: char) -> (b: bool)
    ensures
        b == is_whitespace(c),
{
    let v: u32 = c as u32;
    (0x09 <= v && v <= 0x0D) || v == 0x20 || v == 0x85 || v == 0xA0 || v == 0x1680 || (0x2000
        <= v && v <= 0x200A) || v == 0x2028 || v == 0x2029 || v == 0x202F || v == 0x205F || v
        == 0x3000
}

/// Whether `c` is a space or a tab.
pub fn char_is_blank(c: char) -> (b: bool)
    ensures
        b == is_blank(c),
{
    c == ' ' || c == '\t'
}

/// Appends `count` copies of `c` to `buf`.
pub fn push_repeated(buf: &mut Vec<char>, c: char, count: u128)
    ensures
        final(buf)@ == old(buf)@ + repeated(c, count as nat),
{
    let mut i: u128 = 0;
    while i < count
        invariant
            i <= count,
            buf@ == old(buf)@ + repeated(c, i as nat),
        decreases count - i,
    {
        buf.push(c);
        i += 1;
        assert(buf@ =~= old(buf)@ + repeated(c, i as nat));
    }
}

/// Appends the characters of `text` to `buf`.
pub fn push_all(buf: &mut Vec<char>, text: &Vec<char>)
    ensures
        final(buf)@ == old(buf)@ + text@,
{
    let mut i: usize = 0;
    while i < text.len()
        invariant
            i <= text.len(),
            buf@ == old(buf)@ + text@.take(i as int),
        decreases text.len() - i,
    {
        buf.push(text[i]);
        i += 1;
        assert(buf@ =~= old(buf)@ + text@.take(i as int));
    }
    assert(text@.take(text.len() as int) =~= text@);
}

/// Appends the characters of `text` to `buf`.
pub fn push_str(buf: &mut Vec<char>, text: &str)
    ensures
        final(buf)@ == old(buf)@ + text@,
{
    for c in it: text.chars()
        invariant
            buf@ == old(buf)@ + it.seq().take(it.index() as int),
            it.seq() == text@,
    {
        buf.push(c);
        assert(buf@ =~= old(buf)@ + it.seq().take(it.index() + 1));
    }
    assert(text@.take(text@.len() as int) =~= text@);
}


/// The width of a text is the number of bytes of its encoding.
pub proof fn lemma_text_width(s: Seq<char>)
    ensures
        text_width(s) == encode_utf8(s).len(),
    decreases s.len(),
{
    if s.len() > 0 {
        char_is_scalar(s[0]);
        assert(encode_scalar(s[0] as u32).len() == char_width(s[0]));
        lemma_text_width(s.drop_first());
    }
}

/// The width of a text with one more character at its end.
pub proof fn lemma_text_width_push(s: Seq<char>, c: char)
    ensures
        text_width(s.push(c)) == text_width(s) + char_width(c),
    decreases s.len(),
{
    if s.len() == 0 {
        assert(s.push(c).drop_first() =~= s);
    } else {
        assert(s.push(c).drop_first() =~= s.drop_first().push(c));
        lemma_text_width_push(s.drop_first(), c);
    }
}

/// The cursor never stands further right than the text is wide.
pub proof fn lemma_cursor_within_text(s: Seq<char>)
    ensures
        cursor_column(s) <= text_width(s),
    decreases s.len(),
{
    if s.len() > 0 {
        lemma_cursor_within_text(s.drop_last());
        lemma_text_width_push(s.drop_last(), s.last());
        assert(s.drop_last().push(s.last()) =~= s);
    }
}

/// Number of bytes that `c` takes in UTF-8.
pub fn width_of(c: char) -> (width: u128)
    ensures
        width == char_width(c),
{
    let v: u32 = c as u32;
    if v <= 0x7F {
        1
    } else if v <= 0x7FF {
        2
    } else if v <= 0xFFFF {
        3
    } else {
        4
    }
}

/// Number of bytes that `text` takes.
pub fn byte_length(text: &str) -> (width: usize)
    ensures
        width == text_width(text@),
{
    proof {
        lemma_text_width(text@);
    }
    text.as_bytes().len()
}

/// The column of the cursor at the end of `buf`.
pub fn cursor_pos(buf: &Vec<char>) -> (pos: u128)
    ensures
        pos == cursor_column(buf@),
        pos <= 4 * buf.len(),
{
    let mut i: usize = buf.len();
    let mut pos: u128 = 0;
    assert(buf@.take(buf.len() as int) =~= buf@);
    while i > 0 && buf[i - 1] != '\n'
        invariant
            i <= buf.len(),
            pos <= 4 * (buf.len() - i),
            cursor_column(buf@) == pos + cursor_column(buf@.take(i as int)),
        decreases i,
    {
        assert(buf@.take(i as int).drop_last() =~= buf@.take(i - 1));
        pos += width_of(buf[i - 1]);
        i -= 1;
    }
    pos
}

/// Whether `buf` has at least two characters and ends in a space or a newline.
pub fn ends_with_gap(buf: &Vec<char>) -> (b: bool)
    ensures
        b == ends_in_gap(buf@),
{
    let n = buf.len();
    n >= 2 && (buf[n - 1] == ' ' || buf[n - 1] == '\n')
}

/// Whether `chars` holds `c`.
pub fn contains_char(chars: &[char], c: char) -> (b: bool)
    ensures
        b == chars@.contains(c),
{
    let mut i: usize = 0;
    while i < chars.len()
        invariant
            i <= chars.len(),
            forall|j: int| 0 <= j < i ==> chars@[j] != c,
        decreases chars.len() - i,
    {
        if chars[i] == c {
            return true;
        }
        i += 1;
    }
    false
}

/// Whether the last character of `buf` is one of `chars`.
pub fn ends_with_any(buf: &Vec<char>, chars: &[char]) -> (b: bool)
    ensures
        b == ends_with_one_of(buf@, chars@),
{
    let n = buf.len();
    n > 0 && contains_char(chars, buf[n - 1])
}

/// Whether the last character of `buf` is `c`.
pub fn ends_with_char(buf: &Vec<char>, c: char) -> (b: bool)
    ensures
        b == ends_with_one_of(buf@, seq![c]),
{
    let n = buf.len();
    assert(seq![c][0] == c);
    n > 0 && buf[n - 1] == c
}

/// Number of blanks at the start of `line`.
pub fn indent_of(line: &Vec<char>) -> (n: usize)
    ensures
        n == indent_width(line@),
{
    let mut i: usize = 0;
    assert(line@.skip(0) =~= line@);
    while i < line.len() && char_is_blank(line[i])
        invariant
            i <= line.len(),
            indent_width(line@) == i + indent_width(line@.skip(i as int)),
        decreases line.len() - i,
    {
        assert(line@.skip(i as int).drop_first() =~= line@.skip(i + 1));
        i += 1;
    }
    i
}

/// Whether `line` holds nothing but whitespace.
pub fn all_whitespace(line: &Vec<char>) -> (b: bool)
    ensures
        b == is_all_whitespace(line@),
{
    let mut i: usize = 0;
    while i < line.len()
        invariant
            i <= line.len(),
            forall|j: int| 0 <= j < i ==> is_whitespace(#[trigger] line@[j]),
        decreases line.len() - i,
    {
        if !char_is_whitespace(line[i]) {
            return false;
        }
        i += 1;
    }
    true
}

/// A copy of `chars[from..to]`.
pub fn copy_range(chars: &Vec<char>, from: usize, to: usize) -> (out: Vec<char>)
    requires
        from <= to <= chars.len(),
    ensures
        out@ == chars@.subrange(from as int, to as int),
{
    let mut out: Vec<char> = Vec::new();
    let mut i: usize = from;
    while i < to
        invariant
            from <= i <= to <= chars.len(),
            out@ == chars@.subrange(from as int, i as int),
        decreases to - i,
    {
        out.push(chars[i]);
        i += 1;
        assert(out@ =~= chars@.subrange(from as int, i as int));
    }
    out
}

/// `first_newline` is the first position that holds a newline.
pub proof fn lemma_first_newline(s: Seq<char>, n: int)
    requires
        0 <= n <= s.len(),
        forall|i: int| 0 <= i < n ==> s[i] != '\n',
        n == s.len() || s[n] == '\n',
    ensures
        first_newline(s) == n,
    decreases s.len(),
{
    if n > 0 {
        lemma_first_newline(s.drop_first(), n - 1);
    }
}

/// The lines of `text`.
pub fn split_lines(text: &Vec<char>) -> (out: Vec<Vec<char>>)
    ensures
        views(out@) == lines(text@),
{
    let mut out: Vec<Vec<char>> = Vec::new();
    let mut start: usize = 0;
    let len = text.len();
    assert(text@.skip(0) =~= text@);
    while start < len
        invariant
            start <= len,
            len == text.len(),
            views(out@) + lines(text@.skip(start as int)) == lines(text@),
        decreases len - start,
    {
        let mut end: usize = start;
        while end < len && text[end] != '\n'
            invariant
                start <= end <= len,
                len == text.len(),
                forall|j: int| start <= j < end ==> text@[j] != '\n',
            decreases len - end,
        {
            end += 1;
        }
        let ghost rest = text@.skip(start as int);
        proof {
            lemma_first_newline(rest, end - start);
            assert(rest.take(end - start) =~= text@.subrange(start as int, end as int));
        }
        if end < len {
            let stop = if end > start && text[end - 1] == '\r' {
                end - 1
            } else {
                end
            };
            let line = copy_range(text, start, stop);
            proof {
                assert(line@ =~= without_carriage_return(rest.take(end - start)));
                assert(rest.skip(end - start + 1) =~= text@.skip(end + 1));
                assert(views(out@.push(line)) =~= views(out@) + seq![line@]);
                assert(views(out@) + (seq![line@] + lines(text@.skip(end + 1))) =~= (views(out@)
                    + seq![line@]) + lines(text@.skip(end + 1)));
            }
            out.push(line);
            start = end + 1;
        } else {
            let line = copy_range(text, start, end);
            proof {
                assert(line@ =~= rest);
                assert(views(out@.push(line)) =~= views(out@) + seq![line@]);
                assert(lines(text@.skip(len as int)) =~= Seq::<Seq<char>>::empty());
            }
            out.push(line);
            start = len;
        }
    }
    assert(views(out@) + lines(text@.skip(start as int)) =~= views(out@));
    out
}

/// The indentation shared by all lines of `text` that hold a visible character.
pub fn min_indent_of(text: &Vec<char>) -> (n: usize)
    ensures
        n == min_indent(text@),
{
    let ls = split_lines(text);
    let mut best: Option<usize> = None;
    let mut i: usize = 0;
    let ghost all = lines(text@);
    assert(all.skip(0) =~= all);
    while i < ls.len()
        invariant
            i <= ls.len(),
            views(ls@) == all,
            least(
                match best {
                    Some(b) => Some(b as nat),
                    None => None,
                },
                least_indent(all.skip(i as int)),
            ) == least_indent(all),
        decreases ls.len() - i,
    {
        let line = &ls[i];
        assert(all.skip(i as int)[0] == line@);
        assert(all.skip(i as int).drop_first() =~= all.skip(i + 1));
        if !all_whitespace(line) {
            let w = indent_of(line);
            best = match best {
                Some(b) => Some(if b <= w { b } else { w }),
                None => Some(w),
            };
        }
        i += 1;
    }
    match best {
        Some(b) => b,
        None => 0,
    }
}

/// `text` with the indentation common to its lines removed.
pub fn strip_common_indent(text: &Vec<char>) -> (out: Vec<char>)
    ensures
        out@ == without_common_indent(text@),
{
    let limit = min_indent_of(text);
    let mut out: Vec<char> = Vec::new();
    let mut seen: usize = 0;
    let mut i: usize = 0;
    assert(text@.skip(0) =~= text@);
    while i < text.len()
        invariant
            i <= text.len(),
            seen <= i,
            out@ + strip_blanks(text@.skip(i as int), seen as nat, limit as nat) == strip_blanks(
                text@,
                0,
                limit as nat,
            ),
        decreases text.len() - i,
    {
        let c = text[i];
        let ghost rest = text@.skip(i as int);
        assert(rest.drop_first() =~= text@.skip(i + 1));
        let ghost before = out@;
        if char_is_blank(c) {
            seen += 1;
            if seen > limit {
                out.push(c);
                assert(out@ + strip_blanks(text@.skip(i + 1), seen as nat, limit as nat)
                    =~= before + (seq![c] + strip_blanks(
                    text@.skip(i + 1),
                    seen as nat,
                    limit as nat,
                )));
            }
        } else {
            if c == '\n' {
                seen = 0;
            }
            out.push(c);
            assert(out@ + strip_blanks(text@.skip(i + 1), seen as nat, limit as nat) =~= before
                + (seq![c] + strip_blanks(text@.skip(i + 1), seen as nat, limit as nat)));
        }
        i += 1;
    }
    assert(out@ + strip_blanks(text@.skip(i as int), seen as nat, limit as nat) =~= out@);
    out
}

/// `text` with `indent` spaces put in front of every non-empty line but the first.
pub fn indent_continuation_lines(text: &Vec<char>, indent: u128) -> (out: Vec<char>)
    ensures
        out@ == indent_lines(text@, false, indent as nat),
{
    let mut out: Vec<char> = Vec::new();
    let mut pending = false;
    let mut i: usize = 0;
    assert(text@.skip(0) =~= text@);
    while i < text.len()
        invariant
            i <= text.len(),
            out@ + indent_lines(text@.skip(i as int), pending, indent as nat) == indent_lines(
                text@,
                false,
                indent as nat,
            ),
        decreases text.len() - i,
    {
        let c = text[i];
        let ghost rest = text@.skip(i as int);
        let ghost before = out@;
        assert(rest.drop_first() =~= text@.skip(i + 1));
        if pending && c != '\n' {
            push_repeated(&mut out, ' ', indent);
        }
        out.push(c);
        assert(out@ + indent_lines(text@.skip(i + 1), c == '\n', indent as nat) =~= before + ((
        if pending && c != '\n' {
            repeated(' ', indent as nat)
        } else {
            Seq::<char>::empty()
        }) + seq![c] + indent_lines(text@.skip(i + 1), c == '\n', indent as nat)));
        pending = c == '\n';
        i += 1;
    }
    assert(out@ + indent_lines(text@.skip(i as int), pending, indent as nat) =~= out@);
    out
}

/// Length of `chars[..end]` without its trailing whitespace.
pub fn trimmed_end(chars: &Vec<char>, end: usize) -> (n: usize)
    requires
        end <= chars.len(),
    ensures
        n <= end,
        chars@.take(n as int) == trim_end(chars@.take(end as int)),
{
    let mut n: usize = end;
    while n > 0 && char_is_whitespace(chars[n - 1])
        invariant
            n <= end <= chars.len(),
            trim_end(chars@.take(n as int)) == trim_end(chars@.take(end as int)),
        decreases n,
    {
        assert(chars@.take(n as int).drop_last() =~= chars@.take(n - 1));
        n -= 1;
    }
    n
}

/// Start of `chars[..end]` without its leading whitespace.
pub fn trimmed_start(chars: &Vec<char>, end: usize) -> (n: usize)
    requires
        end <= chars.len(),
    ensures
        n <= end,
        chars@.subrange(n as int, end as int) == trim_start(chars@.take(end as int)),
{
    let mut n: usize = 0;
    assert(chars@.subrange(0, end as int) =~= chars@.take(end as int));
    while n < end && char_is_whitespace(chars[n])
        invariant
            n <= end <= chars.len(),
            trim_start(chars@.subrange(n as int, end as int)) == trim_start(
                chars@.take(end as int),
            ),
        decreases end - n,
    {
        assert(chars@.subrange(n as int, end as int).drop_first() =~= chars@.subrange(
            n + 1,
            end as int,
        ));
        n += 1;
    }
    n
}

/// `chars` without its leading and trailing whitespace.
pub fn trimmed(chars: &Vec<char>) -> (out: Vec<char>)
    ensures
        out@ == trim(chars@),
{
    let end = trimmed_end(chars, chars.len());
    let start = trimmed_start(chars, end);
    assert(chars@.take(chars.len() as int) =~= chars@);
    copy_range(chars, start, end)
}

/// Every line of `text`, stripped of trailing whitespace and ended by a newline.
pub fn trim_line_ends(text: &Vec<char>) -> (out: Vec<char>)
    ensures
        out@ == join_trimmed(lines(text@)),
{
    let ls = split_lines(text);
    let mut out: Vec<char> = Vec::new();
    let mut i: usize = 0;
    let ghost all = lines(text@);
    while i < ls.len()
        invariant
            i <= ls.len(),
            views(ls@) == all,
            out@ == join_trimmed(all.take(i as int)),
        decreases ls.len() - i,
    {
        let line = &ls[i];
        let n = trimmed_end(line, line.len());
        let kept = copy_range(line, 0, n);
        proof {
            assert(all[i as int] == line@);
            assert(line@.take(line.len() as int) =~= line@);
            assert(kept@ =~= trim_end(line@));
            assert(all.take(i + 1).drop_last() =~= all.take(i as int));
            assert(all.take(i + 1).last() == line@);
        }
        let ghost before = out@;
        push_all(&mut out, &kept);
        out.push('\n');
        assert(out@ =~= before + trim_end(line@) + seq!['\n']);
        i += 1;
    }
    assert(all.take(ls.len() as int) =~= all);
    out
}

} // verus!
