//! Character-level helpers for the text that checker tools print.
//!
//! Text is handled as sequences of `char`, so that every index below is a
//! character index and every contract is stated over `Seq<char>`.

use vstd::prelude::*;
use vstd::utf8::{decode_utf8, valid_utf8};

verus! {

/// The characters of `s`, in order.
pub fn chars_of(s: &str) -> (r: Vec<char>)
    ensures
        r@ == s@,
{
    let mut out: Vec<char> = Vec::new();
    for c in it: s.chars()
        invariant
            out@ == it.seq().take(it.index() as int),
            it.seq() == s@,
    {
        out.push(c);
    }
    out
}

/// `String::from_iter` over the characters of a vector: the string that
/// holds exactly these characters, in this order.
#[verifier::external_body]
pub(crate) fn string_of(chars: &Vec<char>) -> (r: String)
    ensures
        r@ == chars@,
{
    String::from_iter(chars.iter())
}

/// `std::str::from_utf8`: the bytes read as UTF-8. The call succeeds exactly
/// on well-formed UTF-8, and the string then holds the decoded characters.
#[verifier::external_body]
pub(crate) fn utf8_text(bytes: &[u8]) -> (r: Option<&str>)
    ensures
        r is Some <==> valid_utf8(bytes@),
        r matches Some(s) ==> s@ == decode_utf8(bytes@),
{
    std::str::from_utf8(bytes).ok()
}

/// What a byte string says when read as UTF-8, if it is well formed.
pub open spec fn decoded(bytes: Seq<u8>) -> Option<Seq<char>> {
    if valid_utf8(bytes) {
        Some(decode_utf8(bytes))
    } else {
        None
    }
}

/// Decodes UTF-8 bytes into characters; `None` for malformed input.
pub fn decode(bytes: &Vec<u8>) -> (r: Option<Vec<char>>)
    ensures
        r.deep_view() == decoded(bytes@),
{
    match utf8_text(bytes.as_slice()) {
        Some(s) => {
            let chars = chars_of(s);
            assert(Some(chars).deep_view() == Some(chars@));
            assert(chars.deep_view() =~= chars@);
            Some(chars)
        },
        None => None,
    }
}

/// Whether `s` begins with `prefix`.
pub open spec fn is_prefix(prefix: Seq<char>, s: Seq<char>) -> bool {
    prefix.len() <= s.len() && s.take(prefix.len() as int) == prefix
}

/// Whether two texts hold the same characters.
pub fn same_text(a: &str, b: &str) -> (r: bool)
    ensures
        r == (a@ == b@),
{
    let x = chars_of(a);
    let y = chars_of(b);
    if x.len() != y.len() {
        return false;
    }
    let mut i: usize = 0;
    while i < x.len()
        invariant
            i <= x.len(),
            x.len() == y.len(),
            x@ == a@,
            y@ == b@,
            forall|k: int| 0 <= k < i ==> x@[k] == y@[k],
        decreases x.len() - i,
    {
        if x[i] != y[i] {
            return false;
        }
        i = i + 1;
    }
    assert(x@ =~= y@);
    true
}

/// Whether `s` begins with `prefix`.
pub fn starts_with(s: &str, prefix: &str) -> (r: bool)
    ensures
        r == is_prefix(prefix@, s@),
{
    let x = chars_of(s);
    let y = chars_of(prefix);
    if y.len() > x.len() {
        return false;
    }
    let mut i: usize = 0;
    while i < y.len()
        invariant
            i <= y.len() <= x.len(),
            x@ == s@,
            y@ == prefix@,
            forall|k: int| 0 <= k < i ==> x@[k] == y@[k],
        decreases y.len() - i,
    {
        if x[i] != y[i] {
            assert(x@.take(y.len() as int)[i as int] != y@[i as int]);
            return false;
        }
        i = i + 1;
    }
    assert(x@.take(y.len() as int) =~= y@);
    true
}

/// Whether `c` is one of the ASCII digits `0` to `9`.
pub open spec fn is_digit(c: char) -> bool {
    48 <= c as u32 <= 57
}

/// The value of an ASCII digit.
pub open spec fn digit_value(c: char) -> nat {
    (c as u32 - 48) as nat
}

/// Whether `s` holds ASCII digits only.
pub open spec fn all_digits(s: Seq<char>) -> bool {
    forall|i: int| 0 <= i < s.len() ==> is_digit(#[trigger] s[i])
}

/// The number that a string of decimal digits denotes.
pub open spec fn decimal(s: Seq<char>) -> nat
    decreases s.len(),
{
    if s.len() == 0 {
        0
    } else {
        decimal(s.drop_last()) * 10 + digit_value(s.last())
    }
}

/// The digits of a number written with an optional leading plus sign.
pub open spec fn unsigned_part(s: Seq<char>) -> Seq<char> {
    if s.len() > 0 && s[0] == '+' {
        s.drop_first()
    } else {
        s
    }
}

/// A decimal `u32`: an optional plus sign, then at least one ASCII digit,
/// the value within range. Anything else is no number.
pub open spec fn parsed_u32(s: Seq<char>) -> Option<u32> {
    let d = unsigned_part(s);
    if d.len() > 0 && all_digits(d) && decimal(d) <= u32::MAX {
        Some(decimal(d) as u32)
    } else {
        None
    }
}

/// A longer digit string never denotes less than one of its prefixes.
pub proof fn lemma_decimal_prefix(s: Seq<char>, n: int)
    requires
        0 <= n <= s.len(),
    ensures
        decimal(s.take(n)) <= decimal(s),
    decreases s.len(),
{
    if n == s.len() {
        assert(s.take(n) =~= s);
    } else {
        lemma_decimal_prefix(s.drop_last(), n);
        assert(s.drop_last().take(n) =~= s.take(n));
    }
}

/// Reads a decimal `u32` as `str::parse::<u32>` does.
pub fn parse_u32(s: &Vec<char>) -> (r: Option<u32>)
    ensures
        r == parsed_u32(s@),
{
    let start: usize = if s.len() > 0 && s[0] == '+' { 1 } else { 0 };
    let ghost d = unsigned_part(s@);
    assert(d =~= s@.skip(start as int));
    if start == s.len() {
        return None;
    }
    let mut value: u64 = 0;
    let mut i: usize = start;
    while i < s.len()
        invariant
            start <= i <= s.len(),
            d == s@.skip(start as int),
            d == unsigned_part(s@),
            d.len() > 0,
            all_digits(d.take(i - start)),
            value == decimal(d.take(i - start)),
            value <= u32::MAX,
        decreases s.len() - i,
    {
        let c = s[i];
        let code: u32 = c as u32;
        let ghost next = d.take(i - start + 1);
        assert(next.drop_last() =~= d.take(i - start));
        assert(next.last() == c);
        assert(d[i - start] == c);
        if code < 48 || code > 57 {
            assert(!is_digit(d[i - start]));
            return None;
        }
        let digit: u64 = (code - 48) as u64;
        value = value * 10 + digit;
        if value > 0xffff_ffff {
            proof {
                assert(decimal(next) == value);
                lemma_decimal_prefix(d, i - start + 1);
            }
            return None;
        }
        assert forall|k: int| 0 <= k < next.len() implies is_digit(#[trigger] next[k]) by {
            if k < next.len() - 1 {
                assert(next[k] == d.take(i - start)[k]);
            }
        }
        i = i + 1;
    }
    assert(d.take(i - start) =~= d);
    Some(value as u32)
}

/// How many characters stand before the first one that `stop` accepts; the
/// whole length where there is none.
pub open spec fn run_len(s: Seq<char>, stop: spec_fn(char) -> bool) -> int
    decreases s.len(),
{
    if s.len() == 0 || stop(s[0]) {
        0
    } else {
        1 + run_len(s.drop_first(), stop)
    }
}

/// `run_len` is the first index that `stop` accepts.
pub proof fn lemma_run_len(s: Seq<char>, stop: spec_fn(char) -> bool, n: int)
    requires
        0 <= n <= s.len(),
        forall|i: int| 0 <= i < n ==> !stop(#[trigger] s[i]),
        n == s.len() || stop(s[n]),
    ensures
        run_len(s, stop) == n,
    decreases n,
{
    if n > 0 {
        let rest = s.drop_first();
        assert forall|i: int| 0 <= i < n - 1 implies !stop(#[trigger] rest[i]) by {
            assert(rest[i] == s[i + 1]);
        }
        lemma_run_len(rest, stop, n - 1);
    }
}

/// `run_len` lies within the text, nothing before it is accepted by `stop`,
/// and what stands at it, if anything, is.
pub proof fn lemma_run_len_stops(s: Seq<char>, stop: spec_fn(char) -> bool)
    ensures
        0 <= run_len(s, stop) <= s.len(),
        forall|i: int| 0 <= i < run_len(s, stop) ==> !stop(#[trigger] s[i]),
        run_len(s, stop) < s.len() ==> stop(s[run_len(s, stop)]),
    decreases s.len(),
{
    if s.len() > 0 && !stop(s[0]) {
        let rest = s.drop_first();
        lemma_run_len_stops(rest, stop);
        assert forall|i: int| 0 <= i < run_len(s, stop) implies !stop(#[trigger] s[i]) by {
            if i > 0 {
                assert(s[i] == rest[i - 1]);
            }
        }
    }
}

/// A line without a carriage return at its end.
pub open spec fn strip_cr(line: Seq<char>) -> Seq<char> {
    if line.len() > 0 && line.last() == '\r' {
        line.drop_last()
    } else {
        line
    }
}

/// Whether `c` is the line feed.
pub open spec fn is_newline(c: char) -> bool {
    c == '\n'
}

/// The lines of a text. A line ends at `\n` or at `\r\n`, and its terminator
/// is not part of it. Text after the last `\n` is a line of its own, kept as
/// it is; where nothing follows the last `\n`, no empty line is added.
pub open spec fn lines(s: Seq<char>) -> Seq<Seq<char>>
    decreases s.len(),
{
    let n = run_len(s, |c: char| is_newline(c));
    if s.len() == 0 {
        Seq::empty()
    } else if 0 <= n < s.len() {
        seq![strip_cr(s.take(n))] + lines(s.skip(n + 1))
    } else {
        seq![s]
    }
}

/// No line holds a line feed.
pub proof fn lemma_lines_hold_no_line_feed(s: Seq<char>)
    ensures
        forall|k: int, j: int|
            0 <= k < lines(s).len() && 0 <= j < lines(s)[k].len() ==> #[trigger] lines(s)[k][j]
                != '\n',
    decreases s.len(),
{
    let stop = |c: char| is_newline(c);
    let n = run_len(s, stop);
    lemma_run_len_stops(s, stop);
    if s.len() > 0 && n < s.len() {
        let first = strip_cr(s.take(n));
        let rest = lines(s.skip(n + 1));
        lemma_lines_hold_no_line_feed(s.skip(n + 1));
        assert forall|k: int, j: int| 0 <= k < lines(s).len() && 0 <= j < lines(s)[k].len() implies
            #[trigger] lines(s)[k][j] != '\n' by {
            if k == 0 {
                assert(lines(s)[0] == first);
                assert(first[j] == s[j]);
            } else {
                assert(lines(s)[k] == rest[k - 1]);
            }
        }
    }
}

/// Splits a text into its lines, as `str::lines` does.
pub fn split_lines(text: &Vec<char>) -> (r: Vec<Vec<char>>)
    ensures
        r.deep_view() == lines(text@),
{
    let mut out: Vec<Vec<char>> = Vec::new();
    let mut line: Vec<char> = Vec::new();
    let mut start: usize = 0;
    let mut i: usize = 0;
    let ghost stop = |c: char| is_newline(c);
    assert(text@.skip(0) =~= text@);
    assert(out.deep_view() =~= Seq::<Seq<char>>::empty());
    while i < text.len()
        invariant
            start <= i <= text.len(),
            stop == (|c: char| is_newline(c)),
            line@ == text@.subrange(start as int, i as int),
            forall|k: int| start <= k < i ==> text@[k] != '\n',
            lines(text@) == out.deep_view() + lines(text@.skip(start as int)),
        decreases text.len() - i,
    {
        let c = text[i];
        if c == '\n' {
            let ghost rest = text@.skip(start as int);
            proof {
                assert forall|k: int| 0 <= k < i - start implies !stop(#[trigger] rest[k]) by {
                    assert(rest[k] == text@[start + k]);
                }
                assert(stop(rest[i - start]));
                lemma_run_len(rest, stop, i - start);
                assert(rest.take(i - start) =~= line@);
                assert(rest.skip(i - start + 1) =~= text@.skip(i + 1));
            }
            let n = line.len();
            if n > 0 && line[n - 1] == '\r' {
                line.pop();
                assert(line@ =~= strip_cr(rest.take(i - start)));
            }
            let ghost before = out.deep_view();
            out.push(line);
            assert(out.deep_view() =~= before.push(strip_cr(rest.take(i - start)))) by {
                assert(out@.last().deep_view() =~= out@.last()@);
            }
            line = Vec::new();
            start = i + 1;
            assert(line@ =~= text@.subrange(start as int, start as int));
        } else {
            line.push(c);
            assert(line@ =~= text@.subrange(start as int, i + 1));
        }
        i = i + 1;
    }
    let ghost rest = text@.skip(start as int);
    if line.len() > 0 {
        proof {
            assert(rest =~= line@);
            assert forall|k: int| 0 <= k < rest.len() implies !stop(#[trigger] rest[k]) by {
                assert(rest[k] == text@[start + k]);
            }
            lemma_run_len(rest, stop, rest.len() as int);
        }
        let ghost before = out.deep_view();
        out.push(line);
        assert(out.deep_view() =~= before.push(rest)) by {
            assert(out@.last().deep_view() =~= out@.last()@);
        }
    } else {
        assert(rest.len() == 0);
        assert(out.deep_view() + lines(rest) =~= out.deep_view());
    }
    out
}

/// Whether a character is white space: whether it has the Unicode property
/// White_Space. These are the controls from tab to carriage return, the
/// space, next line, the no-break space, the ogham space mark, the spaces
/// from en quad to hair space, the line and the paragraph separator, the
/// narrow no-break space, the medium mathematical space and the ideographic
/// space.
pub open spec fn is_white_space(c: char) -> bool {
    let v = c as u32;
    (0x09 <= v <= 0x0D) || v == 0x20 || v == 0x85 || v == 0xA0 || v == 0x1680 || (0x2000 <= v
        <= 0x200A) || v == 0x2028 || v == 0x2029 || v == 0x202F || v == 0x205F || v == 0x3000
}

/// Tells whether a character is white space, as `char::is_whitespace` does.
pub fn is_whitespace(c: char) -> (r: bool)
    ensures
        r == is_white_space(c),
{
    let v: u32 = c as u32;
    (0x09 <= v && v <= 0x0D) || v == 0x20 || v == 0x85 || v == 0xA0 || v == 0x1680 || (0x2000 <= v
        && v <= 0x200A) || v == 0x2028 || v == 0x2029 || v == 0x202F || v == 0x205F || v == 0x3000
}

/// The words of a text: its maximal runs of characters that are not white
/// space, in order.
pub open spec fn words(s: Seq<char>) -> Seq<Seq<char>>
    decreases s.len(),
{
    let n = run_len(s, |c: char| is_white_space(c));
    if s.len() == 0 {
        Seq::empty()
    } else if 0 < n <= s.len() {
        seq![s.take(n)] + words(s.skip(n))
    } else {
        words(s.drop_first())
    }
}

/// Every word holds at least one character and no white space.
pub proof fn lemma_words_are_words(s: Seq<char>)
    ensures
        forall|k: int| 0 <= k < words(s).len() ==> (#[trigger] words(s)[k]).len() > 0,
        forall|k: int, j: int|
            0 <= k < words(s).len() && 0 <= j < words(s)[k].len() ==> !is_white_space(
                #[trigger] words(s)[k][j],
            ),
    decreases s.len(),
{
    let stop = |c: char| is_white_space(c);
    let n = run_len(s, stop);
    lemma_run_len_stops(s, stop);
    if s.len() > 0 {
        if 0 < n {
            let rest = words(s.skip(n));
            lemma_words_are_words(s.skip(n));
            assert(words(s) == seq![s.take(n)] + rest);
            assert forall|k: int| 0 <= k < words(s).len() implies (#[trigger] words(s)[k]).len()
                > 0 by {
                if k > 0 {
                    assert(words(s)[k] == rest[k - 1]);
                }
            }
            assert forall|k: int, j: int|
                0 <= k < words(s).len() && 0 <= j < words(s)[k].len() implies !is_white_space(
                #[trigger] words(s)[k][j],
            ) by {
                if k == 0 {
                    assert(words(s)[0][j] == s[j]);
                    assert(!stop(s[j]));
                } else {
                    assert(words(s)[k] == rest[k - 1]);
                }
            }
        } else {
            lemma_words_are_words(s.drop_first());
            assert(words(s) == words(s.drop_first()));
        }
    }
}

/// Splits a text at white space, as `str::split_whitespace` does.
pub fn split_words(text: &Vec<char>) -> (r: Vec<Vec<char>>)
    ensures
        r.deep_view() == words(text@),
{
    let mut out: Vec<Vec<char>> = Vec::new();
    let mut word: Vec<char> = Vec::new();
    let mut start: usize = 0;
    let mut i: usize = 0;
    let ghost stop = |c: char| is_white_space(c);
    assert(text@.skip(0) =~= text@);
    assert(out.deep_view() =~= Seq::<Seq<char>>::empty());
    while i < text.len()
        invariant
            start <= i <= text.len(),
            stop == (|c: char| is_white_space(c)),
            word@ == text@.subrange(start as int, i as int),
            forall|k: int| start <= k < i ==> !is_white_space(text@[k]),
            words(text@) == out.deep_view() + words(text@.skip(start as int)),
        decreases text.len() - i,
    {
        let c = text[i];
        if is_whitespace(c) {
            let ghost rest = text@.skip(start as int);
            let ghost tail = text@.skip(i as int);
            proof {
                assert forall|k: int| 0 <= k < i - start implies !stop(#[trigger] rest[k]) by {
                    assert(rest[k] == text@[start + k]);
                }
                assert(stop(rest[i - start]));
                lemma_run_len(rest, stop, i - start);
                assert(rest.take(i - start) =~= word@);
                assert(rest.skip(i - start) =~= tail);
                assert(stop(tail[0]));
                lemma_run_len(tail, stop, 0);
                assert(tail.drop_first() =~= text@.skip(i + 1));
                assert(words(tail) == words(text@.skip(i + 1)));
            }
            if word.len() > 0 {
                let ghost before = out.deep_view();
                out.push(word);
                assert(out.deep_view() =~= before.push(rest.take(i - start))) by {
                    assert(out@.last().deep_view() =~= out@.last()@);
                }
                word = Vec::new();
            }
            start = i + 1;
            assert(word@ =~= text@.subrange(start as int, start as int));
        } else {
            word.push(c);
            assert(word@ =~= text@.subrange(start as int, i + 1));
        }
        i = i + 1;
    }
    let ghost rest = text@.skip(start as int);
    if word.len() > 0 {
        proof {
            assert(rest =~= word@);
            assert forall|k: int| 0 <= k < rest.len() implies !stop(#[trigger] rest[k]) by {
                assert(rest[k] == text@[start + k]);
            }
            lemma_run_len(rest, stop, rest.len() as int);
            assert(rest.take(rest.len() as int) =~= rest);
            assert(words(rest.skip(rest.len() as int)) =~= Seq::<Seq<char>>::empty());
            assert(words(rest) =~= seq![rest]);
        }
        let ghost before = out.deep_view();
        out.push(word);
        assert(out.deep_view() =~= before.push(rest)) by {
            assert(out@.last().deep_view() =~= out@.last()@);
        }
    } else {
        assert(rest.len() == 0);
        assert(out.deep_view() + words(rest) =~= out.deep_view());
    }
    out
}

} // verus!
