//! The tokens of the language, as recognisers on the bytes of a source text.
//!
//! A recogniser takes a position and gives the position after the token that starts
//! there, if one does. Positions are byte offsets.
use crate::config::FusionConfig;
use crate::error::Error;
use crate::grammar::{annotations_end, clob_rest, end_of, expr, file, value};
use crate::parser::{parse, scan_annotation, visit_clob_rest, visit_expr, visit_value};
use crate::source::{bytes_of, slice_text, text_at};
use crate::span::ShortSpan;
use vstd::prelude::*;

verus! {

/// The rules of the grammar that a text can be matched against on its own.
#[allow(non_camel_case_types)]
#[derive(Clone, Copy, Debug, PartialEq, Eq, Structural)]
pub enum Rule {
    annotations,
    blob,
    block_comment,
    boolean,
    clob,
    expr,
    file,
    integer,
    line_comment,
    list,
    null,
    real_number,
    sexpr,
    string,
    structure,
    symbol,
    timestamp,
}

/// What a rule matched at the start of a text.
#[derive(Debug)]
pub struct Matched {
    pub rule: Rule,
    pub span: ShortSpan,
    pub text: String,
}

impl Matched {
    /// The text that was matched.
    pub fn as_str(&self) -> (text: &str)
        ensures
            text@ == self.text@,
    {
        self.text.as_str()
    }
}

/// Matches single rules of the grammar.
pub struct FusionLexer;

/// The byte at position `i` of `b`, or 0 where `b` has none.
pub open spec fn at(b: Seq<u8>, i: int) -> u8 {
    if 0 <= i < b.len() {
        b[i]
    } else {
        0
    }
}

pub open spec fn is_digit(c: u8) -> bool {
    0x30 <= c <= 0x39
}

pub open spec fn is_hex_digit(c: u8) -> bool {
    is_digit(c) || 0x41 <= c <= 0x46 || 0x61 <= c <= 0x66
}

pub open spec fn is_bin_digit(c: u8) -> bool {
    c == 0x30 || c == 0x31
}

/// A digit in base 2, 10 or 16.
pub open spec fn is_digit_of(base: u8, c: u8) -> bool {
    if base == 16 {
        is_hex_digit(c)
    } else if base == 2 {
        is_bin_digit(c)
    } else {
        is_digit(c)
    }
}

pub open spec fn is_letter(c: u8) -> bool {
    0x41 <= c <= 0x5A || 0x61 <= c <= 0x7A
}

/// A byte that can start an identifier: a letter, `_` or `$`.
pub open spec fn is_ident_start(c: u8) -> bool {
    is_letter(c) || c == 0x5F || c == 0x24
}

/// A byte that can continue an identifier.
pub open spec fn is_ident_part(c: u8) -> bool {
    is_ident_start(c) || is_digit(c)
}

/// A byte that cannot directly follow a number, a timestamp or a keyword.
pub open spec fn is_token_char(c: u8) -> bool {
    is_ident_part(c) || c == 0x2E
}

/// A byte of an operator symbol: one of ``!#%&*+-./;<=>?@^`|~``.
pub open spec fn is_operator_char(c: u8) -> bool {
    ||| c == 0x21
    ||| c == 0x23
    ||| c == 0x25
    ||| c == 0x26
    ||| c == 0x2A
    ||| c == 0x2B
    ||| c == 0x2D
    ||| c == 0x2E
    ||| c == 0x2F
    ||| c == 0x3B
    ||| c == 0x3C
    ||| c == 0x3D
    ||| c == 0x3E
    ||| c == 0x3F
    ||| c == 0x40
    ||| c == 0x5E
    ||| c == 0x60
    ||| c == 0x7C
    ||| c == 0x7E
}

/// Whitespace between tokens: space, tab, line feed, vertical tab, form feed, carriage
/// return.
pub open spec fn is_space(c: u8) -> bool {
    c == 0x20 || 0x09 <= c <= 0x0D
}

/// A byte of base-64 text.
pub open spec fn is_base64(c: u8) -> bool {
    is_letter(c) || is_digit(c) || c == 0x2B || c == 0x2F || c == 0x3D
}

/// `word` stands at position `pos` of `b`.
pub open spec fn word_at(b: Seq<u8>, pos: int, word: Seq<u8>) -> bool {
    &&& 0 <= pos
    &&& pos + word.len() <= b.len()
    &&& forall|i: int| 0 <= i < word.len() ==> b[pos + i] == #[trigger] word[i]
}

/// A class of bytes that a token can be a run of.
#[derive(Clone, Copy, Debug, PartialEq, Eq, Structural)]
pub enum ByteClass {
    /// Decimal digits.
    Digit,
    /// Bytes that continue an identifier.
    IdentPart,
    /// Bytes of an operator symbol.
    Operator,
    /// Whitespace.
    Space,
    /// All but the line feed.
    NotLineFeed,
    /// Base-64 text and whitespace.
    BlobText,
}

/// `c` belongs to `class`.
pub open spec fn in_class(class: ByteClass, c: u8) -> bool {
    match class {
        ByteClass::Digit => is_digit(c),
        ByteClass::IdentPart => is_ident_part(c),
        ByteClass::Operator => is_operator_char(c),
        ByteClass::Space => is_space(c),
        ByteClass::NotLineFeed => c != 0x0A,
        ByteClass::BlobText => is_space(c) || is_base64(c),
    }
}

/// End of the run of bytes of one class that starts at `pos`.
pub open spec fn run_end(b: Seq<u8>, pos: int, class: ByteClass) -> int
    decreases b.len() - pos,
{
    if 0 <= pos < b.len() && in_class(class, b[pos]) {
        run_end(b, pos + 1, class)
    } else {
        pos
    }
}

/// End of the digits that follow a digit that ends at `pos`: further digits, each
/// after at most one `_`.
pub open spec fn digits_end(b: Seq<u8>, pos: int, base: u8) -> int
    decreases b.len() - pos,
{
    if pos < 0 || pos >= b.len() {
        pos
    } else if is_digit_of(base, b[pos]) {
        digits_end(b, pos + 1, base)
    } else if b[pos] == 0x5F && is_digit_of(base, at(b, pos + 1)) {
        digits_end(b, pos + 2, base)
    } else {
        pos
    }
}

/// End of the whole part of a decimal number at `pos`: `0`, or a digit from 1 to 9 with
/// the digits that follow it.
pub open spec fn decimal_end(b: Seq<u8>, pos: int) -> Option<int> {
    if at(b, pos) == 0x30 {
        Some(pos + 1)
    } else if is_digit(at(b, pos)) {
        Some(digits_end(b, pos + 1, 10))
    } else {
        None
    }
}

/// Position after a `-` at `pos`, or `pos` if there is none.
pub open spec fn after_sign(b: Seq<u8>, pos: int) -> int {
    if at(b, pos) == 0x2D {
        pos + 1
    } else {
        pos
    }
}

/// `end` if no token character stands there.
pub open spec fn ended(b: Seq<u8>, end: Option<int>) -> Option<int> {
    match end {
        Some(e) => if is_token_char(at(b, e)) {
            None
        } else {
            end
        },
        None => None,
    }
}

/// End of the digits of an integer without its sign: hexadecimal after `0x`, binary after
/// `0b`, else decimal.
pub open spec fn unsigned_end(b: Seq<u8>, p: int) -> Option<int> {
    if at(b, p) == 0x30 && (at(b, p + 1) == 0x78 || at(b, p + 1) == 0x58) && is_hex_digit(
        at(b, p + 2),
    ) {
        Some(digits_end(b, p + 3, 16))
    } else if at(b, p) == 0x30 && (at(b, p + 1) == 0x62 || at(b, p + 1) == 0x42) && is_bin_digit(
        at(b, p + 2),
    ) {
        Some(digits_end(b, p + 3, 2))
    } else {
        decimal_end(b, p)
    }
}

/// End of the integer at `pos`.
pub open spec fn integer_end(b: Seq<u8>, pos: int) -> Option<int> {
    ended(b, unsigned_end(b, after_sign(b, pos)))
}

/// End of the exponent at `pos`: `e`, `E`, `d` or `D`, a sign if any, and digits.
pub open spec fn exponent_end(b: Seq<u8>, pos: int) -> Option<int> {
    let c = at(b, pos);
    if c == 0x65 || c == 0x45 || c == 0x64 || c == 0x44 {
        let q = if at(b, pos + 1) == 0x2B || at(b, pos + 1) == 0x2D {
            pos + 2
        } else {
            pos + 1
        };
        if is_digit(at(b, q)) {
            Some(run_end(b, q, ByteClass::Digit))
        } else {
            None
        }
    } else {
        None
    }
}

/// End of what follows the whole part of a real number that ends at `pos`: a point with
/// digits and an exponent if any, or an exponent alone.
pub open spec fn fraction_end(b: Seq<u8>, pos: int) -> Option<int> {
    if at(b, pos) == 0x2E {
        let digits = if is_digit(at(b, pos + 1)) {
            digits_end(b, pos + 2, 10)
        } else {
            pos + 1
        };
        match exponent_end(b, digits) {
            Some(e) => Some(e),
            None => Some(digits),
        }
    } else {
        exponent_end(b, pos)
    }
}

/// End of the real number at `pos`.
pub open spec fn real_end(b: Seq<u8>, pos: int) -> Option<int> {
    match decimal_end(b, after_sign(b, pos)) {
        Some(whole) => ended(b, fraction_end(b, whole)),
        None => None,
    }
}

/// Two digits stand at `pos`.
pub open spec fn two_digits_at(b: Seq<u8>, pos: int) -> bool {
    is_digit(at(b, pos)) && is_digit(at(b, pos + 1))
}

/// End of the offset at `pos`: `Z`, or a sign, hours, `:` and minutes.
pub open spec fn offset_end(b: Seq<u8>, pos: int) -> Option<int> {
    if at(b, pos) == 0x5A {
        Some(pos + 1)
    } else if (at(b, pos) == 0x2B || at(b, pos) == 0x2D) && two_digits_at(b, pos + 1) && at(
        b,
        pos + 3,
    ) == 0x3A && two_digits_at(b, pos + 4) {
        Some(pos + 6)
    } else {
        None
    }
}

/// End of the seconds at `pos`, if there are any: `:`, two digits, and a point with
/// digits if any.
pub open spec fn seconds_end(b: Seq<u8>, pos: int) -> int {
    if at(b, pos) == 0x3A && two_digits_at(b, pos + 1) {
        if at(b, pos + 3) == 0x2E && is_digit(at(b, pos + 4)) {
            run_end(b, pos + 4, ByteClass::Digit)
        } else {
            pos + 3
        }
    } else {
        pos
    }
}

/// End of the time of day at `pos`: hours, `:`, minutes, seconds if any, and an offset.
pub open spec fn time_end(b: Seq<u8>, pos: int) -> Option<int> {
    if two_digits_at(b, pos) && at(b, pos + 2) == 0x3A && two_digits_at(b, pos + 3) {
        offset_end(b, seconds_end(b, pos + 5))
    } else {
        None
    }
}

/// End of the date or date and time at `pos`, before the look at what follows: a year,
/// or a year and a month, each ended by `T`; or a full date, alone, with `T`, or with
/// `T` and a time of day.
pub open spec fn date_end(b: Seq<u8>, pos: int) -> Option<int> {
    if !(two_digits_at(b, pos) && two_digits_at(b, pos + 2)) {
        None
    } else if at(b, pos + 4) == 0x54 {
        Some(pos + 5)
    } else if at(b, pos + 4) == 0x2D && two_digits_at(b, pos + 5) {
        if at(b, pos + 7) == 0x54 {
            Some(pos + 8)
        } else if at(b, pos + 7) == 0x2D && two_digits_at(b, pos + 8) {
            if at(b, pos + 10) == 0x54 {
                match time_end(b, pos + 11) {
                    Some(e) => Some(e),
                    None => Some(pos + 11),
                }
            } else {
                Some(pos + 10)
            }
        } else {
            None
        }
    } else {
        None
    }
}

/// End of the timestamp at `pos`.
pub open spec fn timestamp_end(b: Seq<u8>, pos: int) -> Option<int> {
    ended(b, date_end(b, pos))
}

/// End of the type name of a typed null at `pos`.
pub open spec fn null_type_end(b: Seq<u8>, pos: int) -> Option<int> {
    if word_at(b, pos, seq![0x6Eu8, 0x75, 0x6C, 0x6C]) {
        Some(pos + 4)
    } else if word_at(b, pos, seq![0x62u8, 0x6F, 0x6F, 0x6C]) {
        Some(pos + 4)
    } else if word_at(b, pos, seq![0x69u8, 0x6E, 0x74]) {
        Some(pos + 3)
    } else if word_at(b, pos, seq![0x66u8, 0x6C, 0x6F, 0x61, 0x74]) {
        Some(pos + 5)
    } else if word_at(b, pos, seq![0x64u8, 0x65, 0x63, 0x69, 0x6D, 0x61, 0x6C]) {
        Some(pos + 7)
    } else if word_at(b, pos, seq![0x74u8, 0x69, 0x6D, 0x65, 0x73, 0x74, 0x61, 0x6D, 0x70]) {
        Some(pos + 9)
    } else if word_at(b, pos, seq![0x73u8, 0x74, 0x72, 0x69, 0x6E, 0x67]) {
        Some(pos + 6)
    } else if word_at(b, pos, seq![0x73u8, 0x79, 0x6D, 0x62, 0x6F, 0x6C]) {
        Some(pos + 6)
    } else if word_at(b, pos, seq![0x62u8, 0x6C, 0x6F, 0x62]) {
        Some(pos + 4)
    } else if word_at(b, pos, seq![0x63u8, 0x6C, 0x6F, 0x62]) {
        Some(pos + 4)
    } else if word_at(b, pos, seq![0x73u8, 0x74, 0x72, 0x75, 0x63, 0x74]) {
        Some(pos + 6)
    } else if word_at(b, pos, seq![0x6Cu8, 0x69, 0x73, 0x74]) {
        Some(pos + 4)
    } else if word_at(b, pos, seq![0x73u8, 0x65, 0x78, 0x70]) {
        Some(pos + 4)
    } else {
        None
    }
}

/// End of the null at `pos`: `null`, and a point with a type name if any.
pub open spec fn null_end(b: Seq<u8>, pos: int) -> Option<int> {
    if word_at(b, pos, seq![0x6Eu8, 0x75, 0x6C, 0x6C]) {
        let typed = if at(b, pos + 4) == 0x2E {
            null_type_end(b, pos + 5)
        } else {
            None
        };
        ended(
            b,
            match typed {
                Some(e) => Some(e),
                None => Some(pos + 4),
            },
        )
    } else {
        None
    }
}

/// End of the boolean at `pos`: `true` or `false`.
pub open spec fn boolean_end(b: Seq<u8>, pos: int) -> Option<int> {
    if word_at(b, pos, seq![0x74u8, 0x72, 0x75, 0x65]) {
        ended(b, Some(pos + 4))
    } else if word_at(b, pos, seq![0x66u8, 0x61, 0x6C, 0x73, 0x65]) {
        ended(b, Some(pos + 5))
    } else {
        None
    }
}

/// End of the identifier at `pos`.
pub open spec fn ident_end(b: Seq<u8>, pos: int) -> Option<int> {
    if is_ident_start(at(b, pos)) {
        Some(run_end(b, pos + 1, ByteClass::IdentPart))
    } else {
        None
    }
}

/// End of the operator symbol at `pos`.
pub open spec fn operator_end(b: Seq<u8>, pos: int) -> Option<int> {
    if is_operator_char(at(b, pos)) {
        Some(run_end(b, pos + 1, ByteClass::Operator))
    } else {
        None
    }
}

/// End of quoted text whose opening quote ends at `pos`: the position after the next
/// `quote` that no backslash stands before. Quoted text does not span lines.
pub open spec fn quoted_end(b: Seq<u8>, pos: int, quote: u8) -> Option<int>
    decreases b.len() - pos,
{
    if pos < 0 || pos >= b.len() || b[pos] == 0x0A {
        None
    } else if b[pos] == quote {
        Some(pos + 1)
    } else if b[pos] == 0x5C && pos + 1 < b.len() {
        quoted_end(b, pos + 2, quote)
    } else {
        quoted_end(b, pos + 1, quote)
    }
}

/// End of the quoted symbol at `pos`.
pub open spec fn quoted_symbol_end(b: Seq<u8>, pos: int) -> Option<int> {
    if at(b, pos) == 0x27 {
        quoted_end(b, pos + 1, 0x27)
    } else {
        None
    }
}

/// End of the symbol at `pos`: quoted, an identifier, or an operator.
pub open spec fn symbol_end(b: Seq<u8>, pos: int) -> Option<int> {
    match quoted_symbol_end(b, pos) {
        Some(e) => Some(e),
        None => match ident_end(b, pos) {
            Some(e) => Some(e),
            None => operator_end(b, pos),
        },
    }
}

/// End of the short string at `pos`.
pub open spec fn short_string_end(b: Seq<u8>, pos: int) -> Option<int> {
    if at(b, pos) == 0x22 {
        quoted_end(b, pos + 1, 0x22)
    } else {
        None
    }
}

/// Three single quotes stand at `pos`.
pub open spec fn triple_quote_at(b: Seq<u8>, pos: int) -> bool {
    at(b, pos) == 0x27 && at(b, pos + 1) == 0x27 && at(b, pos + 2) == 0x27
}

/// End of a long string whose opening quotes end at `pos`: the position after the next
/// three single quotes that no backslash stands before.
pub open spec fn long_end(b: Seq<u8>, pos: int) -> Option<int>
    decreases b.len() - pos,
{
    if pos < 0 || pos >= b.len() {
        None
    } else if triple_quote_at(b, pos) {
        Some(pos + 3)
    } else if b[pos] == 0x5C && pos + 1 < b.len() {
        long_end(b, pos + 2)
    } else {
        long_end(b, pos + 1)
    }
}

/// End of the long string at `pos`.
pub open spec fn long_string_end(b: Seq<u8>, pos: int) -> Option<int> {
    if triple_quote_at(b, pos) {
        long_end(b, pos + 3)
    } else {
        None
    }
}

/// End of the whitespace at `pos`.
pub open spec fn space_end(b: Seq<u8>, pos: int) -> int {
    run_end(b, pos, ByteClass::Space)
}

/// End of the line comment at `pos`: `//`, and all up to and with the next line feed.
pub open spec fn line_comment_end(b: Seq<u8>, pos: int) -> Option<int> {
    if at(b, pos) == 0x2F && at(b, pos + 1) == 0x2F {
        let stop = run_end(b, pos + 2, ByteClass::NotLineFeed);
        Some(if stop < b.len() {
            stop + 1
        } else {
            stop
        })
    } else {
        None
    }
}

/// End of a block comment whose opening ends at `pos`: the position after the next `*/`.
pub open spec fn block_end(b: Seq<u8>, pos: int) -> Option<int>
    decreases b.len() - pos,
{
    if pos < 0 || pos + 1 >= b.len() {
        None
    } else if b[pos] == 0x2A && b[pos + 1] == 0x2F {
        Some(pos + 2)
    } else {
        block_end(b, pos + 1)
    }
}

/// End of the block comment at `pos`.
pub open spec fn block_comment_end(b: Seq<u8>, pos: int) -> Option<int> {
    if at(b, pos) == 0x2F && at(b, pos + 1) == 0x2A {
        block_end(b, pos + 2)
    } else {
        None
    }
}

/// End of the blob at `pos`: `{{`, base-64 text with whitespace, `}}`.
pub open spec fn blob_end(b: Seq<u8>, pos: int) -> Option<int> {
    if at(b, pos) == 0x7B && at(b, pos + 1) == 0x7B {
        let stop = run_end(b, pos + 2, ByteClass::BlobText);
        if at(b, stop) == 0x7D && at(b, stop + 1) == 0x7D {
            Some(stop + 2)
        } else {
            None
        }
    } else {
        None
    }
}

/// The byte at position `pos + k` of `b`, or 0 where `b` has none.
pub fn peek(b: &[u8], pos: usize, k: usize) -> (c: u8)
    ensures
        c == at(b@, pos + k),
{
    if pos < b.len() && k < b.len() - pos {
        b[pos + k]
    } else {
        0
    }
}

pub fn byte_is_digit(c: u8) -> (r: bool)
    ensures
        r == is_digit(c),
{
    0x30 <= c && c <= 0x39
}

/// Whether `c` is a digit in base 2, 10 or 16.
pub fn byte_is_digit_of(base: u8, c: u8) -> (r: bool)
    ensures
        r == is_digit_of(base, c),
{
    if base == 16 {
        byte_is_digit(c) || (0x41 <= c && c <= 0x46) || (0x61 <= c && c <= 0x66)
    } else if base == 2 {
        c == 0x30 || c == 0x31
    } else {
        byte_is_digit(c)
    }
}

pub fn byte_is_ident_start(c: u8) -> (r: bool)
    ensures
        r == is_ident_start(c),
{
    (0x41 <= c && c <= 0x5A) || (0x61 <= c && c <= 0x7A) || c == 0x5F || c == 0x24
}

pub fn byte_is_token_char(c: u8) -> (r: bool)
    ensures
        r == is_token_char(c),
{
    byte_is_ident_start(c) || byte_is_digit(c) || c == 0x2E
}

pub fn byte_is_operator(c: u8) -> (r: bool)
    ensures
        r == is_operator_char(c),
{
    c == 0x21 || c == 0x23 || c == 0x25 || c == 0x26 || c == 0x2A || c == 0x2B || c == 0x2D || c
        == 0x2E || c == 0x2F || c == 0x3B || c == 0x3C || c == 0x3D || c == 0x3E || c == 0x3F
        || c == 0x40 || c == 0x5E || c == 0x60 || c == 0x7C || c == 0x7E
}

pub fn byte_is_space(c: u8) -> (r: bool)
    ensures
        r == is_space(c),
{
    c == 0x20 || (0x09 <= c && c <= 0x0D)
}

/// Whether `c` belongs to `class`.
pub fn byte_in_class(class: ByteClass, c: u8) -> (r: bool)
    ensures
        r == in_class(class, c),
{
    match class {
        ByteClass::Digit => byte_is_digit(c),
        ByteClass::IdentPart => byte_is_ident_start(c) || byte_is_digit(c),
        ByteClass::Operator => byte_is_operator(c),
        ByteClass::Space => byte_is_space(c),
        ByteClass::NotLineFeed => c != 0x0A,
        ByteClass::BlobText => byte_is_space(c) || (0x41 <= c && c <= 0x5A) || (0x61 <= c && c
            <= 0x7A) || byte_is_digit(c) || c == 0x2B || c == 0x2F || c == 0x3D,
    }
}

/// End of the run of bytes of `class` that starts at `pos`.
pub fn scan_run(b: &[u8], pos: usize, class: ByteClass) -> (end: usize)
    ensures
        end == run_end(b@, pos as int, class),
        pos <= end,
        pos <= b.len() ==> end <= b.len(),
        in_class(class, at(b@, pos as int)) && pos < b.len() ==> pos < end,
{
    let mut i: usize = pos;
    while i < b.len() && byte_in_class(class, b[i])
        invariant
            pos <= i,
            pos <= b.len() ==> i <= b.len(),
            run_end(b@, i as int, class) == run_end(b@, pos as int, class),
        decreases b.len() - i,
    {
        i += 1;
    }
    i
}

/// End of the digits that follow a digit that ends at `pos`.
pub fn scan_digits(b: &[u8], pos: usize, base: u8) -> (end: usize)
    requires
        pos <= b.len(),
    ensures
        end == digits_end(b@, pos as int, base),
        pos <= end <= b.len(),
{
    let mut i: usize = pos;
    while i < b.len()
        invariant
            pos <= i <= b.len(),
            digits_end(b@, i as int, base) == digits_end(b@, pos as int, base),
        decreases b.len() - i,
    {
        if byte_is_digit_of(base, b[i]) {
            i += 1;
        } else if b[i] == 0x5F && byte_is_digit_of(base, peek(b, i, 1)) {
            i += 2;
        } else {
            return i;
        }
    }
    i
}

/// Position after a `-` at `pos`, or `pos` if there is none.
pub fn skip_sign(b: &[u8], pos: usize) -> (p: usize)
    requires
        pos <= b.len(),
    ensures
        p == after_sign(b@, pos as int),
        pos <= p <= b.len(),
{
    if peek(b, pos, 0) == 0x2D {
        pos + 1
    } else {
        pos
    }
}

/// `end` if no token character stands there.
pub fn check_ended(b: &[u8], end: Option<usize>) -> (r: Option<usize>)
    ensures
        option_int(r) == ended(b@, option_int(end)),
        r is Some ==> r == end,
{
    match end {
        Some(e) => if byte_is_token_char(peek(b, e, 0)) {
            None
        } else {
            end
        },
        None => None,
    }
}

/// A position as the contracts see it.
pub open spec fn option_int(p: Option<usize>) -> Option<int> {
    match p {
        Some(e) => Some(e as int),
        None => None,
    }
}

/// End of the whole part of a decimal number at `pos`.
pub fn scan_decimal(b: &[u8], pos: usize) -> (r: Option<usize>)
    requires
        pos <= b.len(),
    ensures
        option_int(r) == decimal_end(b@, pos as int),
        r matches Some(e) ==> pos < e <= b.len(),
{
    let c = peek(b, pos, 0);
    if c == 0x30 {
        Some(pos + 1)
    } else if byte_is_digit(c) {
        Some(scan_digits(b, pos + 1, 10))
    } else {
        None
    }
}

/// End of the integer at `pos`.
pub fn scan_integer(b: &[u8], pos: usize) -> (r: Option<usize>)
    requires
        pos <= b.len(),
    ensures
        option_int(r) == integer_end(b@, pos as int),
        r matches Some(e) ==> pos < e <= b.len(),
{
    let p = skip_sign(b, pos);
    let c1 = peek(b, p, 1);
    let end = if peek(b, p, 0) == 0x30 && (c1 == 0x78 || c1 == 0x58) && byte_is_digit_of(
        16,
        peek(b, p, 2),
    ) {
        Some(scan_digits(b, p + 3, 16))
    } else if peek(b, p, 0) == 0x30 && (c1 == 0x62 || c1 == 0x42) && byte_is_digit_of(
        2,
        peek(b, p, 2),
    ) {
        Some(scan_digits(b, p + 3, 2))
    } else {
        scan_decimal(b, p)
    };
    check_ended(b, end)
}

/// End of the exponent at `pos`.
pub fn scan_exponent(b: &[u8], pos: usize) -> (r: Option<usize>)
    requires
        pos <= b.len(),
    ensures
        option_int(r) == exponent_end(b@, pos as int),
        r matches Some(e) ==> pos < e <= b.len(),
{
    let c = peek(b, pos, 0);
    if c == 0x65 || c == 0x45 || c == 0x64 || c == 0x44 {
        let sign = peek(b, pos, 1);
        let q = if sign == 0x2B || sign == 0x2D {
            pos + 2
        } else {
            pos + 1
        };
        if byte_is_digit(peek(b, q, 0)) {
            Some(scan_run(b, q, ByteClass::Digit))
        } else {
            None
        }
    } else {
        None
    }
}

/// End of what follows the whole part of a real number that ends at `pos`.
pub fn scan_fraction(b: &[u8], pos: usize) -> (r: Option<usize>)
    requires
        pos <= b.len(),
    ensures
        option_int(r) == fraction_end(b@, pos as int),
        r matches Some(e) ==> pos < e <= b.len(),
{
    if peek(b, pos, 0) == 0x2E {
        let digits = if byte_is_digit(peek(b, pos, 1)) {
            scan_digits(b, pos + 2, 10)
        } else {
            pos + 1
        };
        match scan_exponent(b, digits) {
            Some(e) => Some(e),
            None => Some(digits),
        }
    } else {
        scan_exponent(b, pos)
    }
}

/// End of the real number at `pos`.
pub fn scan_real(b: &[u8], pos: usize) -> (r: Option<usize>)
    requires
        pos <= b.len(),
    ensures
        option_int(r) == real_end(b@, pos as int),
        r matches Some(e) ==> pos < e <= b.len(),
{
    match scan_decimal(b, skip_sign(b, pos)) {
        Some(whole) => check_ended(b, scan_fraction(b, whole)),
        None => None,
    }
}

/// Whether two digits stand at `pos + k`.
pub fn two_digits(b: &[u8], pos: usize, k: usize) -> (r: bool)
    requires
        pos + k + 1 <= usize::MAX,
    ensures
        r == two_digits_at(b@, pos + k),
{
    byte_is_digit(peek(b, pos, k)) && byte_is_digit(peek(b, pos, k + 1))
}

/// End of the offset at `pos`.
pub fn scan_offset(b: &[u8], pos: usize) -> (r: Option<usize>)
    requires
        pos <= b.len(),
    ensures
        option_int(r) == offset_end(b@, pos as int),
        r matches Some(e) ==> pos < e <= b.len(),
{
    let c = peek(b, pos, 0);
    if c == 0x5A {
        Some(pos + 1)
    } else if b.len() - pos >= 6 && (c == 0x2B || c == 0x2D) && two_digits(b, pos, 1) && peek(
        b,
        pos,
        3,
    ) == 0x3A && two_digits(b, pos, 4) {
        Some(pos + 6)
    } else {
        None
    }
}

/// End of the seconds at `pos`, if there are any.
pub fn scan_seconds(b: &[u8], pos: usize) -> (end: usize)
    requires
        pos <= b.len(),
    ensures
        end == seconds_end(b@, pos as int),
        pos <= end <= b.len(),
{
    if b.len() - pos >= 3 && peek(b, pos, 0) == 0x3A && two_digits(b, pos, 1) {
        if peek(b, pos, 3) == 0x2E && byte_is_digit(peek(b, pos, 4)) {
            scan_run(b, pos + 4, ByteClass::Digit)
        } else {
            pos + 3
        }
    } else {
        pos
    }
}

/// End of the time of day at `pos`.
pub fn scan_time(b: &[u8], pos: usize) -> (r: Option<usize>)
    requires
        pos <= b.len(),
    ensures
        option_int(r) == time_end(b@, pos as int),
        r matches Some(e) ==> pos < e <= b.len(),
{
    if b.len() - pos >= 5 && two_digits(b, pos, 0) && peek(b, pos, 2) == 0x3A && two_digits(
        b,
        pos,
        3,
    ) {
        scan_offset(b, scan_seconds(b, pos + 5))
    } else {
        None
    }
}

/// End of the date or date and time at `pos`, before the look at what follows.
pub fn scan_date(b: &[u8], pos: usize) -> (r: Option<usize>)
    requires
        pos <= b.len(),
    ensures
        option_int(r) == date_end(b@, pos as int),
        r matches Some(e) ==> pos < e <= b.len(),
{
    if b.len() - pos < 5 || !(two_digits(b, pos, 0) && two_digits(b, pos, 2)) {
        return None;
    }
    if peek(b, pos, 4) == 0x54 {
        Some(pos + 5)
    } else if b.len() - pos >= 8 && peek(b, pos, 4) == 0x2D && two_digits(b, pos, 5) {
        if peek(b, pos, 7) == 0x54 {
            Some(pos + 8)
        } else if b.len() - pos >= 10 && peek(b, pos, 7) == 0x2D && two_digits(b, pos, 8) {
            if peek(b, pos, 10) == 0x54 {
                match scan_time(b, pos + 11) {
                    Some(e) => Some(e),
                    None => Some(pos + 11),
                }
            } else {
                Some(pos + 10)
            }
        } else {
            None
        }
    } else {
        None
    }
}

/// End of the timestamp at `pos`.
pub fn scan_timestamp(b: &[u8], pos: usize) -> (r: Option<usize>)
    requires
        pos <= b.len(),
    ensures
        option_int(r) == timestamp_end(b@, pos as int),
        r matches Some(e) ==> pos < e <= b.len(),
{
    check_ended(b, scan_date(b, pos))
}

/// Whether `word` stands at position `pos` of `b`, for a word given as an array.
pub fn has_byte_word<const N: usize>(b: &[u8], pos: usize, word: &[u8; N]) -> (r: bool)
    ensures
        r == word_at(b@, pos as int, word@),
        r ==> pos + N <= b.len(),
{
    if pos > b.len() || N > b.len() - pos {
        return false;
    }
    let mut i: usize = 0;
    while i < N
        invariant
            i <= N,
            N == word@.len(),
            pos + N <= b.len(),
            forall|j: int| 0 <= j < i ==> b@[pos + j] == #[trigger] word@[j],
        decreases N - i,
    {
        if b[pos + i] != word[i] {
            return false;
        }
        i += 1;
    }
    true
}

/// End of the type name of a typed null at `pos`.
pub fn scan_null_type(b: &[u8], pos: usize) -> (r: Option<usize>)
    ensures
        option_int(r) == null_type_end(b@, pos as int),
        r matches Some(e) ==> pos < e <= b.len(),
{
    if has_byte_word(b, pos, &[0x6Eu8, 0x75, 0x6C, 0x6C]) {
        Some(pos + 4)
    } else if has_byte_word(b, pos, &[0x62u8, 0x6F, 0x6F, 0x6C]) {
        Some(pos + 4)
    } else if has_byte_word(b, pos, &[0x69u8, 0x6E, 0x74]) {
        Some(pos + 3)
    } else if has_byte_word(b, pos, &[0x66u8, 0x6C, 0x6F, 0x61, 0x74]) {
        Some(pos + 5)
    } else if has_byte_word(b, pos, &[0x64u8, 0x65, 0x63, 0x69, 0x6D, 0x61, 0x6C]) {
        Some(pos + 7)
    } else if has_byte_word(b, pos, &[0x74u8, 0x69, 0x6D, 0x65, 0x73, 0x74, 0x61, 0x6D, 0x70]) {
        Some(pos + 9)
    } else if has_byte_word(b, pos, &[0x73u8, 0x74, 0x72, 0x69, 0x6E, 0x67]) {
        Some(pos + 6)
    } else if has_byte_word(b, pos, &[0x73u8, 0x79, 0x6D, 0x62, 0x6F, 0x6C]) {
        Some(pos + 6)
    } else if has_byte_word(b, pos, &[0x62u8, 0x6C, 0x6F, 0x62]) {
        Some(pos + 4)
    } else if has_byte_word(b, pos, &[0x63u8, 0x6C, 0x6F, 0x62]) {
        Some(pos + 4)
    } else if has_byte_word(b, pos, &[0x73u8, 0x74, 0x72, 0x75, 0x63, 0x74]) {
        Some(pos + 6)
    } else if has_byte_word(b, pos, &[0x6Cu8, 0x69, 0x73, 0x74]) {
        Some(pos + 4)
    } else if has_byte_word(b, pos, &[0x73u8, 0x65, 0x78, 0x70]) {
        Some(pos + 4)
    } else {
        None
    }
}

/// End of the null at `pos`.
pub fn scan_null(b: &[u8], pos: usize) -> (r: Option<usize>)
    requires
        pos <= b.len(),
    ensures
        option_int(r) == null_end(b@, pos as int),
        r matches Some(e) ==> pos < e <= b.len(),
{
    if has_byte_word(b, pos, &[0x6Eu8, 0x75, 0x6C, 0x6C]) {
        let typed = if peek(b, pos, 4) == 0x2E {
            scan_null_type(b, pos + 5)
        } else {
            None
        };
        check_ended(
            b,
            match typed {
                Some(e) => Some(e),
                None => Some(pos + 4),
            },
        )
    } else {
        None
    }
}

/// End of the boolean at `pos`.
pub fn scan_boolean(b: &[u8], pos: usize) -> (r: Option<usize>)
    requires
        pos <= b.len(),
    ensures
        option_int(r) == boolean_end(b@, pos as int),
        r matches Some(e) ==> pos < e <= b.len(),
{
    if has_byte_word(b, pos, &[0x74u8, 0x72, 0x75, 0x65]) {
        check_ended(b, Some(pos + 4))
    } else if has_byte_word(b, pos, &[0x66u8, 0x61, 0x6C, 0x73, 0x65]) {
        check_ended(b, Some(pos + 5))
    } else {
        None
    }
}

/// End of the identifier at `pos`.
pub fn scan_ident(b: &[u8], pos: usize) -> (r: Option<usize>)
    requires
        pos <= b.len(),
    ensures
        option_int(r) == ident_end(b@, pos as int),
        r matches Some(e) ==> pos < e <= b.len(),
{
    if byte_is_ident_start(peek(b, pos, 0)) {
        Some(scan_run(b, pos + 1, ByteClass::IdentPart))
    } else {
        None
    }
}

/// End of the operator symbol at `pos`.
pub fn scan_operator(b: &[u8], pos: usize) -> (r: Option<usize>)
    requires
        pos <= b.len(),
    ensures
        option_int(r) == operator_end(b@, pos as int),
        r matches Some(e) ==> pos < e <= b.len(),
{
    if byte_is_operator(peek(b, pos, 0)) {
        Some(scan_run(b, pos + 1, ByteClass::Operator))
    } else {
        None
    }
}

/// End of quoted text whose opening quote ends at `pos`.
pub fn scan_quoted(b: &[u8], pos: usize, quote: u8) -> (r: Option<usize>)
    requires
        pos <= b.len(),
    ensures
        option_int(r) == quoted_end(b@, pos as int, quote),
        r matches Some(e) ==> pos < e <= b.len(),
{
    let mut i: usize = pos;
    while i < b.len()
        invariant
            pos <= i <= b.len(),
            quoted_end(b@, i as int, quote) == quoted_end(b@, pos as int, quote),
        decreases b.len() - i,
    {
        let c = b[i];
        if c == 0x0A {
            return None;
        } else if c == quote {
            return Some(i + 1);
        } else if c == 0x5C && i + 1 < b.len() {
            i += 2;
        } else {
            i += 1;
        }
    }
    None
}

/// End of the quoted symbol at `pos`.
pub fn scan_quoted_symbol(b: &[u8], pos: usize) -> (r: Option<usize>)
    requires
        pos <= b.len(),
    ensures
        option_int(r) == quoted_symbol_end(b@, pos as int),
        r matches Some(e) ==> pos < e <= b.len(),
{
    if peek(b, pos, 0) == 0x27 {
        scan_quoted(b, pos + 1, 0x27)
    } else {
        None
    }
}

/// End of the symbol at `pos`.
pub fn scan_symbol(b: &[u8], pos: usize) -> (r: Option<usize>)
    requires
        pos <= b.len(),
    ensures
        option_int(r) == symbol_end(b@, pos as int),
        r matches Some(e) ==> pos < e <= b.len(),
{
    match scan_quoted_symbol(b, pos) {
        Some(e) => Some(e),
        None => match scan_ident(b, pos) {
            Some(e) => Some(e),
            None => scan_operator(b, pos),
        },
    }
}

/// End of the short string at `pos`.
pub fn scan_short_string(b: &[u8], pos: usize) -> (r: Option<usize>)
    requires
        pos <= b.len(),
    ensures
        option_int(r) == short_string_end(b@, pos as int),
        r matches Some(e) ==> pos + 2 <= e <= b.len(),
{
    if peek(b, pos, 0) == 0x22 {
        scan_quoted(b, pos + 1, 0x22)
    } else {
        None
    }
}

/// Whether three single quotes stand at `pos`.
pub fn has_triple_quote(b: &[u8], pos: usize) -> (r: bool)
    ensures
        r == triple_quote_at(b@, pos as int),
        r ==> pos + 3 <= b.len(),
{
    peek(b, pos, 0) == 0x27 && peek(b, pos, 1) == 0x27 && peek(b, pos, 2) == 0x27
}

/// End of the long string at `pos`.
pub fn scan_long_string(b: &[u8], pos: usize) -> (r: Option<usize>)
    requires
        pos <= b.len(),
    ensures
        option_int(r) == long_string_end(b@, pos as int),
        r matches Some(e) ==> pos + 6 <= e <= b.len(),
{
    if !has_triple_quote(b, pos) {
        return None;
    }
    let mut i: usize = pos + 3;
    while i < b.len()
        invariant
            pos + 3 <= i <= b.len(),
            triple_quote_at(b@, pos as int),
            long_end(b@, i as int) == long_end(b@, pos + 3),
        decreases b.len() - i,
    {
        if has_triple_quote(b, i) {
            return Some(i + 3);
        } else if b[i] == 0x5C && i + 1 < b.len() {
            i += 2;
        } else {
            i += 1;
        }
    }
    None
}

/// End of the whitespace at `pos`.
pub fn scan_space(b: &[u8], pos: usize) -> (end: usize)
    requires
        pos <= b.len(),
    ensures
        end == space_end(b@, pos as int),
        pos <= end <= b.len(),
        is_space(at(b@, pos as int)) ==> pos < end,
{
    scan_run(b, pos, ByteClass::Space)
}

/// End of the line comment at `pos`.
pub fn scan_line_comment(b: &[u8], pos: usize) -> (r: Option<usize>)
    requires
        pos <= b.len(),
    ensures
        option_int(r) == line_comment_end(b@, pos as int),
        r matches Some(e) ==> pos + 2 <= e <= b.len(),
{
    if peek(b, pos, 0) == 0x2F && peek(b, pos, 1) == 0x2F {
        let stop = scan_run(b, pos + 2, ByteClass::NotLineFeed);
        Some(if stop < b.len() {
            stop + 1
        } else {
            stop
        })
    } else {
        None
    }
}

/// End of the block comment at `pos`.
pub fn scan_block_comment(b: &[u8], pos: usize) -> (r: Option<usize>)
    requires
        pos <= b.len(),
    ensures
        option_int(r) == block_comment_end(b@, pos as int),
        r matches Some(e) ==> pos + 4 <= e <= b.len(),
{
    if !(peek(b, pos, 0) == 0x2F && peek(b, pos, 1) == 0x2A) {
        return None;
    }
    let mut i: usize = pos + 2;
    while b.len() - i >= 2
        invariant
            pos + 2 <= i <= b.len(),
            at(b@, pos as int) == 0x2F && at(b@, pos + 1) == 0x2A,
            block_end(b@, i as int) == block_end(b@, pos + 2),
        decreases b.len() - i,
    {
        if b[i] == 0x2A && b[i + 1] == 0x2F {
            return Some(i + 2);
        }
        i += 1;
    }
    None
}

/// End of the blob at `pos`.
pub fn scan_blob(b: &[u8], pos: usize) -> (r: Option<usize>)
    requires
        pos <= b.len(),
    ensures
        option_int(r) == blob_end(b@, pos as int),
        r matches Some(e) ==> pos + 4 <= e <= b.len(),
{
    if peek(b, pos, 0) == 0x7B && peek(b, pos, 1) == 0x7B {
        let stop = scan_run(b, pos + 2, ByteClass::BlobText);
        if peek(b, stop, 0) == 0x7D && peek(b, stop, 1) == 0x7D {
            Some(stop + 2)
        } else {
            None
        }
    } else {
        None
    }
}

/// End of what `rule` matches at the start of `b`.
pub open spec fn rule_end(rule: Rule, b: Seq<u8>) -> Option<int> {
    match rule {
        Rule::annotations => annotations_end(b, 0),
        Rule::blob => blob_end(b, 0),
        Rule::block_comment => block_comment_end(b, 0),
        Rule::boolean => boolean_end(b, 0),
        Rule::clob => if at(b, 0) == 0x7B && at(b, 1) == 0x7B {
            end_of(clob_rest(b, 2))
        } else {
            None
        },
        Rule::expr => end_of(expr(b, 0)),
        Rule::file => if file(b) is Some {
            Some(b.len() as int)
        } else {
            None
        },
        Rule::integer => integer_end(b, 0),
        Rule::line_comment => line_comment_end(b, 0),
        Rule::list => if at(b, 0) == 0x5B {
            end_of(value(b, 0))
        } else {
            None
        },
        Rule::null => null_end(b, 0),
        Rule::real_number => real_end(b, 0),
        Rule::sexpr => if at(b, 0) == 0x28 {
            end_of(value(b, 0))
        } else {
            None
        },
        Rule::string => match short_string_end(b, 0) {
            Some(e) => Some(e),
            None => long_string_end(b, 0),
        },
        Rule::structure => if at(b, 0) == 0x7B && at(b, 1) != 0x7B {
            end_of(value(b, 0))
        } else {
            None
        },
        Rule::symbol => symbol_end(b, 0),
        Rule::timestamp => timestamp_end(b, 0),
    }
}

/// End of the last of the annotations at `pos`.
pub fn scan_annotations(b: &[u8], pos: usize) -> (r: Option<usize>)
    requires
        pos <= b.len(),
    ensures
        option_int(r) == annotations_end(b@, pos as int),
        r matches Some(e) ==> pos < e <= b.len(),
{
    let mut last: Option<usize> = None;
    let mut i: usize = pos;
    loop
        invariant
            pos <= i <= b.len(),
            last matches Some(e) ==> pos < e <= b.len(),
            annotations_end(b@, pos as int) == (match annotations_end(b@, i as int) {
                Some(e) => Some(e),
                None => option_int(last),
            }),
        decreases b.len() - i,
    {
        reveal(annotations_end);
        match scan_annotation(b, i) {
            Some(end) => {
                last = Some(end);
                i = scan_space(b, end);
            },
            None => {
                return last;
            },
        }
    }
}

/// The position of a match, without what was matched.
fn position<T>(r: Option<(usize, T)>) -> (end: Option<usize>)
    ensures
        end == (match r {
            Some((e, _)) => Some(e),
            None => None,
        }),
{
    match r {
        Some((e, _)) => Some(e),
        None => None,
    }
}

impl FusionLexer {
    /// Matches `rule` at the start of `input`. Succeeds exactly if the rule matches
    /// there and the match cuts no character in two; what follows the match is not looked
    /// at.
    pub fn parse(rule: Rule, input: &str) -> (result: Result<Matched, Error>)
        ensures
            match result {
                Ok(m) => m.rule == rule && (rule_end(rule, bytes_of(input@)) matches Some(e)
                    && m.span == (ShortSpan { start: 0, end: e as usize }) && text_at(
                    bytes_of(input@),
                    0,
                    e,
                ) == Some(m.text@)),
                Err(_) => match rule_end(rule, bytes_of(input@)) {
                    Some(e) => text_at(bytes_of(input@), 0, e) is None,
                    None => true,
                },
            },
    {
        let b = input.as_bytes();
        let end = match rule {
            Rule::annotations => scan_annotations(b, 0),
            Rule::blob => scan_blob(b, 0),
            Rule::block_comment => scan_block_comment(b, 0),
            Rule::boolean => scan_boolean(b, 0),
            Rule::clob => if peek(b, 0, 0) == 0x7B && peek(b, 0, 1) == 0x7B {
                position(visit_clob_rest(input, b, 2))
            } else {
                None
            },
            Rule::expr => position(visit_expr(input, b, 0)),
            Rule::file => {
                let config = FusionConfig {
                    newline_mode: String::new(),
                    format_multiline_string_contents: false,
                    fixed_indent_symbols: Vec::new(),
                    smart_indent_symbols: Vec::new(),
                };
                match parse("", input, &config) {
                    Ok(_) => Some(b.len()),
                    Err(_) => None,
                }
            },
            Rule::integer => scan_integer(b, 0),
            Rule::line_comment => scan_line_comment(b, 0),
            Rule::list => if peek(b, 0, 0) == 0x5B {
                position(visit_value(input, b, 0))
            } else {
                None
            },
            Rule::null => scan_null(b, 0),
            Rule::real_number => scan_real(b, 0),
            Rule::sexpr => if peek(b, 0, 0) == 0x28 {
                position(visit_value(input, b, 0))
            } else {
                None
            },
            Rule::string => match scan_short_string(b, 0) {
                Some(e) => Some(e),
                None => scan_long_string(b, 0),
            },
            Rule::structure => if peek(b, 0, 0) == 0x7B && peek(b, 0, 1) != 0x7B {
                position(visit_value(input, b, 0))
            } else {
                None
            },
            Rule::symbol => scan_symbol(b, 0),
            Rule::timestamp => scan_timestamp(b, 0),
        };
        assert(option_int(end) == rule_end(rule, b@));
        match end {
            Some(e) => match slice_text(input, 0, e) {
                Some(text) => Ok(Matched { rule, span: ShortSpan::new(0, e), text }),
                None => Err(Error::generic("the match ends inside a character")),
            },
            None => Err(Error::generic("the rule does not match")),
        }
    }
}

} // verus!
