use veridian::buffer::TextBuffer;
use veridian::position::{Position, Range};

fn pos(line: u32, character: u32) -> Position {
    Position { line, character }
}

fn range(l0: u32, c0: u32, l1: u32, c1: u32) -> Range {
    Range { start: pos(l0, c0), end: pos(l1, c1) }
}

fn is_break(c: char) -> bool {
    matches!(c, '\n' | '\u{b}' | '\u{c}' | '\r' | '\u{85}' | '\u{2028}' | '\u{2029}')
}

/// The position of every offset of a text, found by walking it.
fn walk(text: &str) -> Vec<(u32, u32)> {
    let chars: Vec<char> = text.chars().collect();
    let mut out = Vec::new();
    let mut line = 0;
    let mut col = 0;
    out.push((line, col));
    for i in 0..chars.len() {
        let ends_line =
            is_break(chars[i]) && !(chars[i] == '\r' && i + 1 < chars.len() && chars[i + 1] == '\n');
        if ends_line {
            line += 1;
            col = 0;
        } else {
            col += 1;
        }
        out.push((line, col));
    }
    out
}

const SAMPLES: [&str; 16] = [
    "",
    "a",
    "\n",
    "abc\n",
    "abc\ndef",
    "module test;\n logic a;\nendmodule\n",
    "one\r\ntwo\r\n",
    "one\rtwo\r",
    "\r\n\r\n",
    "\r\r\n\n",
    "a\u{b}b\u{c}c\u{85}d\u{2028}e\u{2029}f",
    "h\u{e9}llo w\u{f6}rld\n\u{1F600}\n",
    "\n\n\n",
    "x\r",
    "last line without break",
    "tab\tno break\n",
];

#[test]
fn new_holds_the_text() {
    for text in SAMPLES {
        let buffer = TextBuffer::new(text);
        assert_eq!(buffer.text(), text);
        assert_eq!(buffer.len_chars(), text.chars().count());
        assert_eq!(buffer.snapshot().text(), text);
    }
}

#[test]
fn len_lines_is_one_more_than_the_breaks() {
    for text in SAMPLES {
        let positions = walk(text);
        let last = positions[positions.len() - 1];
        assert_eq!(TextBuffer::new(text).len_lines(), last.0 as usize + 1, "on {:?}", text);
    }
    assert_eq!(TextBuffer::new("").len_lines(), 1);
    assert_eq!(TextBuffer::new("a\n").len_lines(), 2);
    assert_eq!(TextBuffer::new("a\r\nb").len_lines(), 2);
}

#[test]
fn position_at_agrees_with_a_walk() {
    for text in SAMPLES {
        let buffer = TextBuffer::new(text);
        let positions = walk(text);
        for (offset, (line, col)) in positions.iter().enumerate() {
            assert_eq!(
                buffer.position_at(offset),
                Some(pos(*line, *col)),
                "offset {} of {:?}",
                offset,
                text
            );
        }
        assert_eq!(buffer.position_at(positions.len()), None);
        assert_eq!(buffer.position_at(usize::MAX), None);
    }
}

#[test]
fn offset_round_trip() {
    for text in SAMPLES {
        let buffer = TextBuffer::new(text);
        for offset in 0..=buffer.len_chars() {
            let position = buffer.position_at(offset).unwrap();
            assert_eq!(buffer.offset_at(position), Some(offset), "offset {} of {:?}", offset, text);
        }
    }
}

#[test]
fn position_round_trip() {
    for text in SAMPLES {
        let buffer = TextBuffer::new(text);
        let lines = buffer.len_lines() as u32;
        for line in 0..lines + 2 {
            for character in 0..12 {
                let position = pos(line, character);
                if let Some(offset) = buffer.offset_at(position) {
                    assert_eq!(buffer.position_at(offset), Some(position), "on {:?}", text);
                }
            }
        }
    }
}

#[test]
fn offset_at_knows_which_positions_exist() {
    for text in SAMPLES {
        let buffer = TextBuffer::new(text);
        let positions = walk(text);
        let lines = buffer.len_lines() as u32;
        for line in 0..lines + 2 {
            for character in 0..12 {
                let expected = positions.iter().position(|p| *p == (line, character));
                assert_eq!(
                    buffer.offset_at(pos(line, character)),
                    expected,
                    "({}, {}) of {:?}",
                    line,
                    character,
                    text
                );
            }
        }
    }
}

#[test]
fn positions_of_an_empty_buffer() {
    let buffer = TextBuffer::new("");
    assert_eq!(buffer.offset_at(pos(0, 0)), Some(0));
    assert_eq!(buffer.position_at(0), Some(pos(0, 0)));
    assert_eq!(buffer.offset_at(pos(0, 1)), None);
    assert_eq!(buffer.offset_at(pos(1, 0)), None);
    assert_eq!(buffer.position_at(1), None);
}

#[test]
fn positions_on_first_and_last_line() {
    let with_break = TextBuffer::new("ab\ncd\n");
    assert_eq!(with_break.offset_at(pos(0, 0)), Some(0));
    assert_eq!(with_break.offset_at(pos(0, 2)), Some(2));
    assert_eq!(with_break.offset_at(pos(0, 3)), None);
    assert_eq!(with_break.offset_at(pos(1, 2)), Some(5));
    assert_eq!(with_break.offset_at(pos(2, 0)), Some(6));
    assert_eq!(with_break.offset_at(pos(2, 1)), None);
    assert_eq!(with_break.offset_at(pos(3, 0)), None);

    let without_break = TextBuffer::new("ab\ncd");
    assert_eq!(without_break.offset_at(pos(1, 0)), Some(3));
    assert_eq!(without_break.offset_at(pos(1, 2)), Some(5));
    assert_eq!(without_break.offset_at(pos(1, 3)), None);
    assert_eq!(without_break.offset_at(pos(2, 0)), None);
}

#[test]
fn offset_at_survives_huge_positions() {
    let buffer = TextBuffer::new("ab\ncd");
    assert_eq!(buffer.offset_at(pos(u32::MAX, 0)), None);
    assert_eq!(buffer.offset_at(pos(0, u32::MAX)), None);
    assert_eq!(buffer.offset_at(pos(1, u32::MAX)), None);
    assert_eq!(buffer.offset_at(pos(u32::MAX, u32::MAX)), None);
}

#[test]
fn replace_within_a_line() {
    let mut buffer = TextBuffer::new("module test;\n logic a;\nendmodule\n");
    assert!(buffer.replace(range(1, 2, 1, 8), "  "));
    assert_eq!(buffer.text(), "module test;\n l  ;\nendmodule\n");
}

#[test]
fn replace_across_lines_inserts_and_deletes() {
    let mut buffer = TextBuffer::new("one\ntwo\nthree\n");
    assert!(buffer.replace(range(0, 3, 1, 0), " "));
    assert_eq!(buffer.text(), "one two\nthree\n");
    assert!(buffer.replace(range(0, 0, 0, 0), "zero\n"));
    assert_eq!(buffer.text(), "zero\none two\nthree\n");
    assert!(buffer.replace(range(3, 0, 3, 0), "end"));
    assert_eq!(buffer.text(), "zero\none two\nthree\nend");
    assert!(buffer.replace(range(0, 0, 3, 3), ""));
    assert_eq!(buffer.text(), "");
    assert!(buffer.replace(range(0, 0, 0, 0), "h\u{e9}\n"));
    assert_eq!(buffer.text(), "h\u{e9}\n");
    assert_eq!(buffer.len_lines(), 2);
}

#[test]
fn replace_refuses_ranges_that_do_not_exist() {
    let mut buffer = TextBuffer::new("ab\ncd");
    assert!(!buffer.replace(range(0, 0, 0, 3), "x"));
    assert!(!buffer.replace(range(0, 3, 1, 0), "x"));
    assert!(!buffer.replace(range(2, 0, 2, 0), "x"));
    assert!(!buffer.replace(range(0, 0, 5, 0), "x"));
    assert!(!buffer.replace(range(1, 1, 0, 1), "x"));
    assert!(!buffer.replace(range(0, 2, 0, 1), "x"));
    assert_eq!(buffer.text(), "ab\ncd");
    assert!(buffer.replace(range(1, 2, 1, 2), "!"));
    assert_eq!(buffer.text(), "ab\ncd!");
}

#[test]
fn snapshot_is_independent() {
    let mut buffer = TextBuffer::new("abc");
    let copy = buffer.snapshot();
    assert!(buffer.replace(range(0, 0, 0, 3), "xyz"));
    assert_eq!(buffer.text(), "xyz");
    assert_eq!(copy.text(), "abc");
}

/// A long text with every kind of line break, from a fixed seed.
fn long_text(seed: u64, len: usize) -> String {
    let alphabet = [
        'a', 'b', ' ', ';', '\n', '\r', '\n', '\r', '\u{b}', '\u{c}', '\u{85}', '\u{2028}', '\u{2029}',
        '\u{e9}', '\u{4e2d}', '\u{1F600}', 'x', 'y', 'z', '\t',
    ];
    let mut state = seed;
    let mut out = String::new();
    for _ in 0..len {
        state = state.wrapping_mul(6364136223846793005).wrapping_add(1442695040888963407);
        out.push(alphabet[((state >> 33) % alphabet.len() as u64) as usize]);
    }
    out
}

#[test]
fn long_texts_agree_with_a_walk() {
    for seed in [1u64, 2, 3] {
        let text = long_text(seed, 6000);
        let buffer = TextBuffer::new(&text);
        let positions = walk(&text);
        assert_eq!(buffer.len_chars(), positions.len() - 1);
        assert_eq!(buffer.len_lines(), positions[positions.len() - 1].0 as usize + 1);
        for (offset, (line, col)) in positions.iter().enumerate() {
            let position = pos(*line, *col);
            assert_eq!(buffer.position_at(offset), Some(position), "offset {}", offset);
            assert_eq!(buffer.offset_at(position), Some(offset), "offset {}", offset);
        }
    }
}

#[test]
fn long_texts_are_edited_like_strings() {
    let mut text: Vec<char> = long_text(7, 5000).chars().collect();
    let mut buffer = TextBuffer::new(&text.iter().collect::<String>());
    let mut state = 99u64;
    for round in 0..200 {
        state = state.wrapping_mul(6364136223846793005).wrapping_add(1442695040888963407);
        let a = (state >> 20) as usize % (text.len() + 1);
        state = state.wrapping_mul(6364136223846793005).wrapping_add(1442695040888963407);
        let b = (state >> 20) as usize % (text.len() + 1);
        let (start, end) = if a <= b { (a, b.min(a + 40)) } else { (b, a.min(b + 40)) };
        let with = long_text(round, (round % 7) as usize);
        let range = Range {
            start: buffer.position_at(start).unwrap(),
            end: buffer.position_at(end).unwrap(),
        };
        assert!(buffer.replace(range, &with));
        text.splice(start..end, with.chars());
        assert_eq!(buffer.len_chars(), text.len());
    }
    let expected: String = text.iter().collect();
    assert_eq!(buffer.text(), expected);
    let positions = walk(&expected);
    for (offset, (line, col)) in positions.iter().enumerate().step_by(17) {
        assert_eq!(buffer.position_at(offset), Some(pos(*line, *col)));
    }
}

#[test]
fn byte_offsets_count_utf8_bytes() {
    let buffer = TextBuffer::new("a\u{e9}\n\u{4e2d}\u{1F600}z");
    assert_eq!(buffer.len_bytes(), 1 + 2 + 1 + 3 + 4 + 1);
    assert_eq!(buffer.byte_offset_at(pos(0, 0)), Some(0));
    assert_eq!(buffer.byte_offset_at(pos(0, 1)), Some(1));
    assert_eq!(buffer.byte_offset_at(pos(0, 2)), Some(3));
    assert_eq!(buffer.byte_offset_at(pos(1, 0)), Some(4));
    assert_eq!(buffer.byte_offset_at(pos(1, 1)), Some(7));
    assert_eq!(buffer.byte_offset_at(pos(1, 2)), Some(11));
    assert_eq!(buffer.byte_offset_at(pos(1, 3)), Some(12));
    assert_eq!(buffer.byte_offset_at(pos(1, 4)), None);
    assert_eq!(buffer.byte_offset_at(pos(2, 0)), None);

    // a byte inside a character belongs to that character
    assert_eq!(buffer.position_at_byte(0), Some(pos(0, 0)));
    assert_eq!(buffer.position_at_byte(1), Some(pos(0, 1)));
    assert_eq!(buffer.position_at_byte(2), Some(pos(0, 1)));
    assert_eq!(buffer.position_at_byte(3), Some(pos(0, 2)));
    assert_eq!(buffer.position_at_byte(4), Some(pos(1, 0)));
    assert_eq!(buffer.position_at_byte(6), Some(pos(1, 0)));
    assert_eq!(buffer.position_at_byte(7), Some(pos(1, 1)));
    assert_eq!(buffer.position_at_byte(10), Some(pos(1, 1)));
    assert_eq!(buffer.position_at_byte(11), Some(pos(1, 2)));
    assert_eq!(buffer.position_at_byte(12), Some(pos(1, 3)));
    assert_eq!(buffer.position_at_byte(13), None);
}

#[test]
fn byte_offset_round_trip() {
    for text in SAMPLES {
        let buffer = TextBuffer::new(text);
        assert_eq!(buffer.len_bytes(), text.len());
        let mut bytes = 0;
        for (offset, c) in text.chars().enumerate() {
            let position = buffer.position_at(offset).unwrap();
            assert_eq!(buffer.byte_offset_at(position), Some(bytes), "on {:?}", text);
            for inside in 0..c.len_utf8() {
                assert_eq!(buffer.position_at_byte(bytes + inside), Some(position), "on {:?}", text);
            }
            bytes += c.len_utf8();
        }
        let end = buffer.position_at(buffer.len_chars()).unwrap();
        assert_eq!(buffer.byte_offset_at(end), Some(text.len()));
        assert_eq!(buffer.position_at_byte(text.len()), Some(end));
        assert_eq!(buffer.position_at_byte(text.len() + 1), None);
    }
}

#[test]
fn byte_offsets_of_long_texts() {
    let text = long_text(11, 5000);
    let buffer = TextBuffer::new(&text);
    assert_eq!(buffer.len_bytes(), text.len());
    let mut bytes = 0;
    for (offset, c) in text.chars().enumerate() {
        let position = buffer.position_at(offset).unwrap();
        assert_eq!(buffer.byte_offset_at(position), Some(bytes));
        assert_eq!(buffer.position_at_byte(bytes + c.len_utf8() - 1), Some(position));
        bytes += c.len_utf8();
    }
}
