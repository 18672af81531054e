//! The text of one file, held in a rope, with conversion between positions
//! and offsets and replacement of ranges.
//!
//! A position is a line and a column, both counted from zero, the column in
//! characters. An offset counts characters from the start of the text; a byte
//! offset counts the bytes of its UTF-8 form.
//!
//! The rope is `ropey::Rope`. What it holds is named [`rope_text`]; the
//! contracts of the calls into it are stated over that name as `ropey`
//! documents them, and everything else here is proved from them.

use crate::position::{Position, Range};
use ropey::Rope;
use vstd::prelude::*;

verus! {

/// `ropey::Rope`, taken as it is: nothing inside it is visible here.
#[verifier::external_type_specification]
#[verifier::external_body]
pub struct ExRope(ropey::Rope);

/// Names the characters that a rope holds, in order.
pub uninterp spec fn rope_text(rope: Rope) -> Seq<char>;

/// The characters that end a line for `ropey`: line feed, vertical tab, form
/// feed, carriage return, next line, line separator, paragraph separator.
pub open spec fn is_line_break(c: char) -> bool {
    c == '\u{0A}' || c == '\u{0B}' || c == '\u{0C}' || c == '\u{0D}' || c == '\u{85}' || c
        == '\u{2028}' || c == '\u{2029}'
}

/// Whether a line begins at offset `at`: at the start of the text and right
/// after each line break. A carriage return with a line feed after it is one
/// break, which ends after the line feed.
pub open spec fn line_starts_at(s: Seq<char>, at: int) -> bool {
    at == 0 || (0 < at <= s.len() && is_line_break(s[at - 1]) && !(s[at - 1] == '\u{0D}' && at
        < s.len() && s[at] == '\u{0A}'))
}

/// How many line breaks end at or before offset `at`: the zero-based number
/// of the line on which `at` lies.
pub open spec fn breaks_before(s: Seq<char>, at: int) -> nat
    decreases at,
{
    if at <= 0 {
        0
    } else if line_starts_at(s, at) {
        breaks_before(s, at - 1) + 1
    } else {
        breaks_before(s, at - 1)
    }
}

/// The number of lines of a text: one more than it has line breaks. A text
/// that ends with a break has an empty last line.
pub open spec fn line_count(s: Seq<char>) -> nat {
    breaks_before(s, s.len() as int) + 1
}

/// Whether `at` is the offset at which line `line` begins.
pub open spec fn is_line_start(s: Seq<char>, line: nat, at: int) -> bool {
    0 <= at <= s.len() && line_starts_at(s, at) && breaks_before(s, at) == line
}

/// The offset at which line `line` begins.
pub open spec fn line_start(s: Seq<char>, line: nat) -> int {
    choose|at: int| is_line_start(s, line, at)
}

/// The number of bytes that a character takes in UTF-8.
pub open spec fn utf8_width(c: char) -> nat {
    if (c as u32) < 0x80 {
        1
    } else if (c as u32) < 0x800 {
        2
    } else if (c as u32) < 0x10000 {
        3
    } else {
        4
    }
}

/// The number of bytes that a text takes in UTF-8.
pub open spec fn utf8_len(s: Seq<char>) -> nat
    decreases s.len(),
{
    if s.len() == 0 {
        0
    } else {
        utf8_len(s.drop_last()) + utf8_width(s.last())
    }
}

/// The byte offset at which the character at offset `at` begins: the bytes
/// that the characters before it take.
pub open spec fn byte_of(s: Seq<char>, at: int) -> nat {
    utf8_len(s.take(at))
}

/// Whether the byte at offset `byte` belongs to the character at offset
/// `at`; the byte offset of the end belongs to the end.
pub open spec fn is_char_of_byte(s: Seq<char>, byte: int, at: int) -> bool {
    0 <= at <= s.len() && byte_of(s, at) <= byte && (at < s.len() ==> byte < byte_of(s, at + 1))
}

/// The offset of the character to which the byte at offset `byte` belongs.
pub open spec fn char_of_byte(s: Seq<char>, byte: int) -> int {
    choose|at: int| is_char_of_byte(s, byte, at)
}

/// `Rope::from_str`: a rope that holds the characters of `text`.
#[verifier::external_body]
fn rope_from_str(text: &str) -> (r: Rope)
    ensures
        rope_text(r) == text@,
{
    Rope::from_str(text)
}

/// `Clone::clone` of a rope: a rope with the same text.
#[verifier::external_body]
fn rope_clone(rope: &Rope) -> (r: Rope)
    ensures
        rope_text(r) == rope_text(*rope),
{
    rope.clone()
}

/// `String::from` of a rope: its text as a string.
#[verifier::external_body]
fn rope_to_string(rope: &Rope) -> (r: String)
    ensures
        r@ == rope_text(*rope),
{
    String::from(rope)
}

/// `Rope::len_chars`: the number of characters.
#[verifier::external_body]
fn rope_len_chars(rope: &Rope) -> (r: usize)
    ensures
        r == rope_text(*rope).len(),
{
    rope.len_chars()
}

/// `Rope::len_lines`: the number of lines, one more than the number of line
/// breaks.
#[verifier::external_body]
fn rope_len_lines(rope: &Rope) -> (r: usize)
    ensures
        r == line_count(rope_text(*rope)),
{
    rope.len_lines()
}

/// `Rope::char_to_line`: the line on which a character offset lies, which is
/// the number of line breaks before it. The offset may be the length.
#[verifier::external_body]
fn rope_char_to_line(rope: &Rope, at: usize) -> (r: usize)
    requires
        at <= rope_text(*rope).len(),
    ensures
        r == breaks_before(rope_text(*rope), at as int),
{
    rope.char_to_line(at)
}

/// `Rope::line_to_char`: the character offset at which a line begins.
#[verifier::external_body]
fn rope_line_to_char(rope: &Rope, line: usize) -> (r: usize)
    requires
        line < line_count(rope_text(*rope)),
    ensures
        is_line_start(rope_text(*rope), line as nat, r as int),
{
    rope.line_to_char(line)
}

/// `Rope::len_bytes`: the number of bytes of the text in UTF-8.
#[verifier::external_body]
fn rope_len_bytes(rope: &Rope) -> (r: usize)
    ensures
        r == utf8_len(rope_text(*rope)),
{
    rope.len_bytes()
}

/// `Rope::char_to_byte`: the byte offset at which a character begins. The
/// offset may be the length, which gives the length in bytes.
#[verifier::external_body]
fn rope_char_to_byte(rope: &Rope, at: usize) -> (r: usize)
    requires
        at <= rope_text(*rope).len(),
    ensures
        r == byte_of(rope_text(*rope), at as int),
{
    rope.char_to_byte(at)
}

/// `Rope::byte_to_char`: the offset of the character to which a byte
/// belongs. The offset may be the length in bytes, which gives the length in
/// characters.
#[verifier::external_body]
fn rope_byte_to_char(rope: &Rope, byte: usize) -> (r: usize)
    requires
        byte <= utf8_len(rope_text(*rope)),
    ensures
        is_char_of_byte(rope_text(*rope), byte as int, r as int),
{
    rope.byte_to_char(byte)
}

/// `Rope::insert`: puts `text` in before the character at offset `at`.
#[verifier::external_body]
fn rope_insert(rope: &mut Rope, at: usize, text: &str)
    requires
        at <= rope_text(*old(rope)).len(),
    ensures
        rope_text(*final(rope)) == rope_text(*old(rope)).subrange(0, at as int) + text@
            + rope_text(*old(rope)).subrange(at as int, rope_text(*old(rope)).len() as int),
{
    rope.insert(at, text)
}

/// `Rope::remove`: takes out the characters from offset `start` up to `end`.
#[verifier::external_body]
fn rope_remove(rope: &mut Rope, start: usize, end: usize)
    requires
        start <= end <= rope_text(*old(rope)).len(),
    ensures
        rope_text(*final(rope)) == rope_text(*old(rope)).subrange(0, start as int) + rope_text(
            *old(rope),
        ).subrange(end as int, rope_text(*old(rope)).len() as int),
{
    rope.remove(start..end)
}

/// The number of breaks grows with the offset.
pub proof fn lemma_breaks_monotonic(s: Seq<char>, a: int, b: int)
    requires
        a <= b,
    ensures
        breaks_before(s, a) <= breaks_before(s, b),
    decreases b - a,
{
    if a < b {
        lemma_breaks_monotonic(s, a, b - 1);
    }
}

/// A line begins at one offset only.
pub proof fn lemma_line_start_unique(s: Seq<char>, line: nat, a: int, b: int)
    requires
        is_line_start(s, line, a),
        is_line_start(s, line, b),
    ensures
        a == b,
{
    if a < b {
        lemma_breaks_monotonic(s, a, b - 1);
    } else if b < a {
        lemma_breaks_monotonic(s, b, a - 1);
    }
}

/// Every line on or before the one that holds `upto` begins somewhere at or
/// before `upto`.
pub proof fn lemma_line_start_exists(s: Seq<char>, line: nat, upto: int)
    requires
        0 <= upto <= s.len(),
        line <= breaks_before(s, upto),
    ensures
        is_line_start(s, line, line_start(s, line)),
        line_start(s, line) <= upto,
    decreases upto,
{
    if line == breaks_before(s, upto) && line_starts_at(s, upto) {
        assert(is_line_start(s, line, upto));
        lemma_line_start_unique(s, line, upto, line_start(s, line));
    } else {
        lemma_line_start_exists(s, line, upto - 1);
    }
}

/// Every character takes at least one byte: byte offsets grow with
/// character offsets, and strictly so.
pub proof fn lemma_byte_of_grows(s: Seq<char>, a: int, b: int)
    requires
        0 <= a <= b <= s.len(),
    ensures
        byte_of(s, a) + (b - a) <= byte_of(s, b),
        byte_of(s, s.len() as int) == utf8_len(s),
    decreases b - a,
{
    assert(s.take(s.len() as int) =~= s);
    if a < b {
        lemma_byte_of_grows(s, a, b - 1);
        assert(s.take(b).drop_last() =~= s.take(b - 1));
    }
}

/// A byte belongs to one character only.
pub proof fn lemma_char_of_byte_unique(s: Seq<char>, byte: int, a: int, b: int)
    requires
        is_char_of_byte(s, byte, a),
        is_char_of_byte(s, byte, b),
    ensures
        a == b,
{
    if a < b {
        lemma_byte_of_grows(s, a + 1, b);
    } else if b < a {
        lemma_byte_of_grows(s, b + 1, a);
    }
}

/// From a character offset to the byte offset at which the character begins
/// and back gives the character offset.
pub proof fn lemma_byte_round_trip(s: Seq<char>, at: int)
    requires
        0 <= at <= s.len(),
    ensures
        char_of_byte(s, byte_of(s, at) as int) == at,
{
    if at < s.len() {
        lemma_byte_of_grows(s, at, at + 1);
    }
    assert(is_char_of_byte(s, byte_of(s, at) as int, at));
    lemma_char_of_byte_unique(s, byte_of(s, at) as int, at, char_of_byte(s, byte_of(s, at) as int));
}

/// The line and column of a character offset: the line on which it lies,
/// and how far it stands from where that line begins.
pub open spec fn position_of(s: Seq<char>, offset: int) -> (nat, int) {
    let line = breaks_before(s, offset);
    (line, offset - line_start(s, line))
}

/// The character offset of a position, where the position exists in the
/// text: the line is one of its lines, and the column lies on that line,
/// at most at its end.
pub open spec fn offset_of(s: Seq<char>, line: nat, column: nat) -> Option<int> {
    let at = line_start(s, line) + column;
    if line < line_count(s) && at <= s.len() && breaks_before(s, at) == line {
        Some(at)
    } else {
        None
    }
}

/// From an offset to its position and back gives the offset.
pub proof fn lemma_offset_round_trip(s: Seq<char>, offset: int)
    requires
        0 <= offset <= s.len(),
    ensures
        position_of(s, offset).1 >= 0,
        offset_of(s, position_of(s, offset).0, position_of(s, offset).1 as nat) == Some(offset),
{
    let line = breaks_before(s, offset);
    lemma_line_start_exists(s, line, offset);
    lemma_breaks_monotonic(s, offset, s.len() as int);
}

/// From a position that exists in the text to its offset and back gives the
/// position.
pub proof fn lemma_position_round_trip(s: Seq<char>, line: nat, column: nat)
    requires
        offset_of(s, line, column) is Some,
    ensures
        position_of(s, offset_of(s, line, column)->0) == (line, column as int),
{
}

/// From a position that exists in the text to its byte offset and back
/// gives the position.
pub proof fn lemma_position_byte_round_trip(s: Seq<char>, line: nat, column: nat)
    requires
        offset_of(s, line, column) is Some,
    ensures
        position_of(s, char_of_byte(s, byte_of(s, offset_of(s, line, column)->0) as int)) == (
            line,
            column as int,
        ),
{
    let at = offset_of(s, line, column)->0;
    lemma_line_start_exists(s, line, s.len() as int);
    lemma_byte_round_trip(s, at);
}

/// Every line of a text begins at a position that exists: column zero of the
/// first line, of the last line and of every line between. An empty text has
/// the one position at line zero, column zero.
pub proof fn lemma_line_starts_exist(s: Seq<char>, line: nat)
    requires
        line < line_count(s),
    ensures
        offset_of(s, line, 0) == Some(line_start(s, line)),
        offset_of(s, 0, 0) == Some(0int),
{
    lemma_line_start_exists(s, line, s.len() as int);
    assert(is_line_start(s, 0, 0));
    lemma_line_start_unique(s, 0, 0, line_start(s, 0));
}

/// The text with the characters from `start` up to `end` replaced by `with`.
pub open spec fn replaced(s: Seq<char>, start: int, end: int, with: Seq<char>) -> Seq<char> {
    s.subrange(0, start) + with + s.subrange(end, s.len() as int)
}

/// The text that `range` covers is replaced by `with`, where both ends of the
/// range exist in the text and the start is not behind the end.
pub open spec fn range_replaced(s: Seq<char>, range: Range, with: Seq<char>) -> Option<Seq<char>> {
    match (
        offset_of(s, range.start.line as nat, range.start.character as nat),
        offset_of(s, range.end.line as nat, range.end.character as nat),
    ) {
        (Some(start), Some(end)) if start <= end => Some(replaced(s, start, end, with)),
        _ => None,
    }
}

/// The text of one file.
pub struct TextBuffer {
    rope: Rope,
}

impl View for TextBuffer {
    type V = Seq<char>;

    closed spec fn view(&self) -> Seq<char> {
        rope_text(self.rope)
    }
}

impl TextBuffer {
    /// A buffer that holds `text`.
    pub fn new(text: &str) -> (r: TextBuffer)
        ensures
            r@ == text@,
    {
        TextBuffer { rope: rope_from_str(text) }
    }

    /// A second buffer with the same text.
    pub fn snapshot(&self) -> (r: TextBuffer)
        ensures
            r@ == self@,
    {
        TextBuffer { rope: rope_clone(&self.rope) }
    }

    /// The text as a string.
    pub fn text(&self) -> (r: String)
        ensures
            r@ == self@,
    {
        rope_to_string(&self.rope)
    }

    /// The number of characters.
    pub fn len_chars(&self) -> (r: usize)
        ensures
            r == self@.len(),
    {
        rope_len_chars(&self.rope)
    }

    /// The number of lines; an empty buffer has one.
    pub fn len_lines(&self) -> (r: usize)
        ensures
            r == line_count(self@),
    {
        rope_len_lines(&self.rope)
    }

    /// The character offset of a position; `None` where the position does
    /// not exist in the text.
    pub fn offset_at(&self, position: Position) -> (r: Option<usize>)
        ensures
            match r {
                Some(at) => offset_of(self@, position.line as nat, position.character as nat)
                    == Some(at as int),
                None => offset_of(self@, position.line as nat, position.character as nat) is None,
            },
    {
        let line = position.line as usize;
        let len = rope_len_chars(&self.rope);
        if line >= rope_len_lines(&self.rope) {
            return None;
        }
        let start = rope_line_to_char(&self.rope, line);
        proof {
            lemma_line_start_unique(self@, line as nat, start as int, line_start(self@, line as nat));
        }
        let at = match start.checked_add(position.character as usize) {
            Some(at) => at,
            None => {
                return None;
            },
        };
        if at > len {
            return None;
        }
        if rope_char_to_line(&self.rope, at) != line {
            return None;
        }
        Some(at)
    }

    /// The position of a character offset; `None` where the offset lies
    /// behind the end of the text, or its line or column is too large for a
    /// position to hold.
    pub fn position_at(&self, offset: usize) -> (r: Option<Position>)
        ensures
            match r {
                Some(p) => offset <= self@.len() && position_of(self@, offset as int) == (
                    p.line as nat,
                    p.character as int,
                ),
                None => offset > self@.len() || position_of(self@, offset as int).0 > u32::MAX
                    || position_of(self@, offset as int).1 > u32::MAX,
            },
    {
        if offset > rope_len_chars(&self.rope) {
            return None;
        }
        let line = rope_char_to_line(&self.rope, offset);
        proof {
            lemma_breaks_monotonic(self@, offset as int, self@.len() as int);
            lemma_line_start_exists(self@, line as nat, offset as int);
        }
        let start = rope_line_to_char(&self.rope, line);
        proof {
            lemma_line_start_unique(self@, line as nat, start as int, line_start(self@, line as nat));
        }
        let column = offset - start;
        if line > 0xffff_ffff || column > 0xffff_ffff {
            return None;
        }
        Some(Position { line: line as u32, character: column as u32 })
    }

    /// The number of bytes that the text takes in UTF-8.
    pub fn len_bytes(&self) -> (r: usize)
        ensures
            r == utf8_len(self@),
    {
        rope_len_bytes(&self.rope)
    }

    /// The byte offset of a position: that at which the character at the
    /// position begins; `None` where the position does not exist in the text.
    pub fn byte_offset_at(&self, position: Position) -> (r: Option<usize>)
        ensures
            match offset_of(self@, position.line as nat, position.character as nat) {
                Some(at) => r matches Some(byte) && byte == byte_of(self@, at),
                None => r is None,
            },
    {
        match self.offset_at(position) {
            Some(at) => Some(rope_char_to_byte(&self.rope, at)),
            None => None,
        }
    }

    /// The position of the character to which the byte at a byte offset
    /// belongs; `None` where the offset lies behind the end of the text, or
    /// the line or column is too large for a position to hold.
    pub fn position_at_byte(&self, byte: usize) -> (r: Option<Position>)
        ensures
            match r {
                Some(p) => byte <= utf8_len(self@) && position_of(
                    self@,
                    char_of_byte(self@, byte as int),
                ) == (p.line as nat, p.character as int),
                None => byte > utf8_len(self@) || position_of(
                    self@,
                    char_of_byte(self@, byte as int),
                ).0 > u32::MAX || position_of(self@, char_of_byte(self@, byte as int)).1
                    > u32::MAX,
            },
    {
        if byte > rope_len_bytes(&self.rope) {
            return None;
        }
        let at = rope_byte_to_char(&self.rope, byte);
        proof {
            lemma_char_of_byte_unique(
                self@,
                byte as int,
                at as int,
                char_of_byte(self@, byte as int),
            );
        }
        self.position_at(at)
    }

    /// Replaces the text that `range` covers by `with`. A range that does not
    /// exist in the text is refused, and the text stays as it was.
    pub fn replace(&mut self, range: Range, with: &str) -> (done: bool)
        ensures
            match range_replaced(old(self)@, range, with@) {
                Some(text) => done && final(self)@ == text,
                None => !done && final(self)@ == old(self)@,
            },
    {
        let start = match self.offset_at(range.start) {
            Some(at) => at,
            None => {
                return false;
            },
        };
        let end = match self.offset_at(range.end) {
            Some(at) => at,
            None => {
                return false;
            },
        };
        if start > end {
            return false;
        }
        let ghost before = self@;
        rope_remove(&mut self.rope, start, end);
        rope_insert(&mut self.rope, start, with);
        assert(self@ =~= replaced(before, start as int, end as int, with@));
        true
    }
}

} // verus!
