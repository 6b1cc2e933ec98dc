//! The pieces that frames are written with: literal text and quoted strings.
//!
//! A frame is a JSON object in its shortest form: no space between tokens,
//! the keys in a fixed order. In a quoted string the quotation mark, the
//! backslash and the control characters are escaped, the control characters
//! by their short form where JSON has one and as `\u00` with two lower-case
//! hexadecimal digits where it has none; every other character stands for
//! itself. Reading accepts that form and no other, so one text is the frame
//! of at most one value.

use vstd::prelude::*;
use crate::hex::{hex_digit, hex_digit_of};
use crate::text::push_char;

verus! {

/// `piece` stands in `input` at `pos`.
pub open spec fn at(input: Seq<char>, pos: int, piece: Seq<char>) -> bool {
    0 <= pos && pos + piece.len() <= input.len() && input.subrange(pos, pos + piece.len())
        == piece
}

/// The letter that stands behind a backslash for `c`, where `c` has a short
/// escape.
pub open spec fn short_escape(c: char) -> Option<char> {
    if c == '"' {
        Some('"')
    } else if c == '\\' {
        Some('\\')
    } else if c == '\u{8}' {
        Some('b')
    } else if c == '\u{c}' {
        Some('f')
    } else if c == '\n' {
        Some('n')
    } else if c == '\r' {
        Some('r')
    } else if c == '\t' {
        Some('t')
    } else {
        None
    }
}

/// The character that a letter behind a backslash stands for.
pub open spec fn short_unescape(letter: char) -> Option<char> {
    if letter == '"' {
        Some('"')
    } else if letter == '\\' {
        Some('\\')
    } else if letter == 'b' {
        Some('\u{8}')
    } else if letter == 'f' {
        Some('\u{c}')
    } else if letter == 'n' {
        Some('\n')
    } else if letter == 'r' {
        Some('\r')
    } else if letter == 't' {
        Some('\t')
    } else {
        None
    }
}

/// One character as it stands inside a quoted string.
pub open spec fn escaped(c: char) -> Seq<char> {
    match short_escape(c) {
        Some(letter) => seq!['\\', letter],
        None => if (c as u32) < 0x20 {
            seq!['\\', 'u', '0', '0', hex_digit(c as int / 16), hex_digit(c as int % 16)]
        } else {
            seq![c]
        },
    }
}

/// A text as it stands inside a quoted string.
pub open spec fn escaped_text(text: Seq<char>) -> Seq<char>
    decreases text.len(),
{
    if text.len() == 0 {
        Seq::empty()
    } else {
        escaped(text.first()) + escaped_text(text.drop_first())
    }
}

/// A text as a quoted string.
pub open spec fn quoted(text: Seq<char>) -> Seq<char> {
    seq!['"'] + escaped_text(text) + seq!['"']
}

/// The value of a lower-case hexadecimal digit.
pub open spec fn hex_value(c: char) -> Option<int> {
    let code = c as u32;
    if 48 <= code <= 57 {
        Some(code - 48)
    } else if 97 <= code <= 102 {
        Some(code - 87)
    } else {
        None
    }
}

/// The character whose escaped form stands in `input` at `pos`, and the
/// position behind that form.
pub open spec fn unescape_at(input: Seq<char>, pos: int) -> Option<(char, int)> {
    let len = input.len();
    let c = input[pos];
    if c == '"' || (c as u32) < 0x20 {
        None
    } else if c != '\\' {
        Some((c, pos + 1))
    } else if pos + 1 >= input.len() {
        None
    } else if input[pos + 1] == 'u' {
        if pos + 6 > input.len() || input[pos + 2] != '0' || input[pos + 3] != '0' {
            None
        } else {
            match (hex_value(input[pos + 4]), hex_value(input[pos + 5])) {
                (Some(high), Some(low)) => {
                    let code = 16 * high + low;
                    let c = (code as u8) as char;
                    if code < 0x20 && short_escape(c) is None {
                        Some((c, pos + 6))
                    } else {
                        None
                    }
                },
                _ => None,
            }
        }
    } else {
        match short_unescape(input[pos + 1]) {
            Some(c) => Some((c, pos + 2)),
            None => None,
        }
    }
}

/// The text whose escaped form stands in `input` from `pos` up to the next
/// quotation mark, and the position behind that mark.
pub open spec fn scan(input: Seq<char>, pos: int) -> Option<(Seq<char>, int)>
    decreases input.len() - pos,
{
    if pos < 0 || pos >= input.len() {
        None
    } else if input[pos] == '"' {
        Some((Seq::empty(), pos + 1))
    } else {
        match unescape_at(input, pos) {
            Some((c, next)) => if next > pos {
                match scan(input, next) {
                    Some((rest, end)) => Some((seq![c] + rest, end)),
                    None => None,
                }
            } else {
                None
            },
            None => None,
        }
    }
}

/// The text whose quoted form stands in `input` at `pos`, and the position
/// behind it.
pub open spec fn unquote(input: Seq<char>, pos: int) -> Option<(Seq<char>, int)> {
    if 0 <= pos < input.len() && input[pos] == '"' {
        scan(input, pos + 1)
    } else {
        None
    }
}

proof fn lemma_hex_value_of_digit(value: int)
    requires
        0 <= value < 16,
    ensures
        hex_value(hex_digit(value)) == Some(value),
{
}

proof fn lemma_digit_of_hex_value(c: char)
    requires
        hex_value(c) is Some,
    ensures
        0 <= hex_value(c).unwrap() < 16,
        hex_digit(hex_value(c).unwrap()) == c,
{
}

/// Where `unescape_at` finds a character, its escaped form stands there.
proof fn lemma_unescape_sound(input: Seq<char>, pos: int)
    requires
        0 <= pos < input.len(),
        unescape_at(input, pos) is Some,
    ensures
        ({
            let (c, next) = unescape_at(input, pos).unwrap();
            next == pos + escaped(c).len() && at(input, pos, escaped(c))
        }),
{
    let (c, next) = unescape_at(input, pos).unwrap();
    if input[pos] != '\\' {
        assert(input.subrange(pos, pos + 1) =~= seq![c]);
    } else if input[pos + 1] == 'u' {
        lemma_digit_of_hex_value(input[pos + 4]);
        lemma_digit_of_hex_value(input[pos + 5]);
        let high = hex_value(input[pos + 4]).unwrap();
        let low = hex_value(input[pos + 5]).unwrap();
        assert(c as u32 == 16 * high + low);
        assert(c as int / 16 == high && c as int % 16 == low);
        assert(input.subrange(pos, pos + 6) =~= escaped(c));
    } else {
        assert(input.subrange(pos, pos + 2) =~= escaped(c));
    }
}

/// Where the escaped form of a character stands, `unescape_at` finds it.
proof fn lemma_unescape_complete(input: Seq<char>, pos: int, c: char)
    requires
        at(input, pos, escaped(c)),
    ensures
        unescape_at(input, pos) == Some((c, pos + escaped(c).len())),
{
    let piece = input.subrange(pos, pos + escaped(c).len());
    assert(piece[0] == input[pos]);
    if short_escape(c) is Some {
        assert(piece[1] == input[pos + 1]);
    } else if (c as u32) < 0x20 {
        assert(piece[1] == input[pos + 1]);
        assert(piece[2] == input[pos + 2]);
        assert(piece[3] == input[pos + 3]);
        assert(piece[4] == input[pos + 4]);
        assert(piece[5] == input[pos + 5]);
        lemma_hex_value_of_digit(c as int / 16);
        lemma_hex_value_of_digit(c as int % 16);
    }
}

/// Where `scan` finds a text, the escaped form of the text and a quotation
/// mark stand there.
pub proof fn lemma_scan_sound(input: Seq<char>, pos: int)
    requires
        scan(input, pos) is Some,
    ensures
        ({
            let (text, end) = scan(input, pos).unwrap();
            end == pos + escaped_text(text).len() + 1 && at(
                input,
                pos,
                escaped_text(text) + seq!['"'],
            )
        }),
    decreases input.len() - pos,
{
    let (text, end) = scan(input, pos).unwrap();
    if input[pos] == '"' {
        assert(input.subrange(pos, pos + 1) =~= escaped_text(text) + seq!['"']);
    } else {
        let (c, next) = unescape_at(input, pos).unwrap();
        lemma_unescape_sound(input, pos);
        lemma_scan_sound(input, next);
        let (rest, _) = scan(input, next).unwrap();
        assert(text.first() == c);
        assert(text.drop_first() =~= rest);
        assert(escaped_text(text) =~= escaped(c) + escaped_text(rest));
        assert(input.subrange(pos, end) =~= input.subrange(pos, next) + input.subrange(next, end));
        assert(escaped_text(text) + seq!['"'] =~= escaped(c) + (escaped_text(rest) + seq!['"']));
    }
}

/// Where the escaped form of a text and a quotation mark stand, `scan` finds
/// the text.
pub proof fn lemma_scan_complete(input: Seq<char>, pos: int, text: Seq<char>)
    requires
        at(input, pos, escaped_text(text) + seq!['"']),
    ensures
        scan(input, pos) == Some((text, pos + escaped_text(text).len() + 1)),
    decreases text.len(),
{
    let piece = escaped_text(text) + seq!['"'];
    assert(input.subrange(pos, pos + piece.len())[0] == input[pos]);
    if text.len() == 0 {
        assert(piece[0] == '"');
    } else {
        let c = text.first();
        let rest = text.drop_first();
        let width = escaped(c).len() as int;
        assert(piece =~= escaped(c) + (escaped_text(rest) + seq!['"']));
        assert(input.subrange(pos, pos + width) =~= input.subrange(pos, pos + piece.len()).subrange(
            0,
            width,
        ));
        assert(piece.subrange(0, width) =~= escaped(c));
        assert(at(input, pos, escaped(c)));
        lemma_unescape_complete(input, pos, c);
        assert(input[pos] != '"') by {
            assert(escaped(c)[0] != '"');
            assert(input.subrange(pos, pos + width)[0] == input[pos]);
        }
        assert(input.subrange(pos + width, pos + piece.len()) =~= input.subrange(
            pos,
            pos + piece.len(),
        ).subrange(width, piece.len() as int));
        assert(piece.subrange(width, piece.len() as int) =~= escaped_text(rest) + seq!['"']);
        assert(at(input, pos + width, escaped_text(rest) + seq!['"']));
        lemma_scan_complete(input, pos + width, rest);
        assert(seq![c] + rest =~= text);
    }
}

/// `unquote` finds a text exactly where its quoted form stands.
pub proof fn lemma_unquote_exact(input: Seq<char>, pos: int, text: Seq<char>, end: int)
    ensures
        unquote(input, pos) == Some((text, end)) <==> at(input, pos, quoted(text)) && end == pos
            + quoted(text).len(),
{
    if unquote(input, pos) == Some((text, end)) {
        lemma_scan_sound(input, pos + 1);
        assert(input.subrange(pos, end) =~= seq![input[pos]] + input.subrange(pos + 1, end));
        assert(quoted(text) =~= seq!['"'] + (escaped_text(text) + seq!['"']));
    }
    if at(input, pos, quoted(text)) && end == pos + quoted(text).len() {
        let piece = quoted(text);
        assert(piece =~= seq!['"'] + (escaped_text(text) + seq!['"']));
        assert(input.subrange(pos, end)[0] == input[pos]);
        assert(input.subrange(pos + 1, end) =~= input.subrange(pos, end).subrange(
            1,
            piece.len() as int,
        ));
        assert(piece.subrange(1, piece.len() as int) =~= escaped_text(text) + seq!['"']);
        lemma_scan_complete(input, pos + 1, text);
    }
}

/// The escaped form of a text with one more character at its end.
pub proof fn lemma_escaped_text_push(text: Seq<char>, c: char)
    ensures
        escaped_text(text.push(c)) == escaped_text(text) + escaped(c),
    decreases text.len(),
{
    if text.len() == 0 {
        assert(text.push(c).first() == c);
        assert(text.push(c).drop_first() =~= Seq::<char>::empty());
        assert(escaped_text(Seq::<char>::empty()) =~= Seq::<char>::empty());
        assert(escaped_text(text.push(c)) =~= escaped(c) + Seq::<char>::empty());
        assert(escaped_text(text.push(c)) =~= escaped_text(text) + escaped(c));
    } else {
        assert(text.push(c).drop_first() =~= text.drop_first().push(c));
        lemma_escaped_text_push(text.drop_first(), c);
        assert(escaped_text(text.push(c)) =~= escaped_text(text) + escaped(c));
    }
}

/// A piece made of two stands where the first stands with the second behind
/// it.
pub proof fn lemma_at_split(input: Seq<char>, pos: int, first: Seq<char>, second: Seq<char>)
    ensures
        at(input, pos, first + second) <==> at(input, pos, first) && at(
            input,
            pos + first.len(),
            second,
        ),
{
    let whole = first + second;
    let middle = pos + first.len();
    let end = pos + whole.len();
    if at(input, pos, whole) {
        assert(input.subrange(pos, middle) =~= input.subrange(pos, end).subrange(
            0,
            first.len() as int,
        ));
        assert(whole.subrange(0, first.len() as int) =~= first);
        assert(input.subrange(middle, end) =~= input.subrange(pos, end).subrange(
            first.len() as int,
            whole.len() as int,
        ));
        assert(whole.subrange(first.len() as int, whole.len() as int) =~= second);
    }
    if at(input, pos, first) && at(input, middle, second) {
        assert(input.subrange(pos, end) =~= input.subrange(pos, middle) + input.subrange(
            middle,
            end,
        ));
    }
}

/// A single character stands where the input has it.
pub proof fn lemma_at_char(input: Seq<char>, pos: int, c: char)
    ensures
        at(input, pos, seq![c]) <==> 0 <= pos < input.len() && input[pos] == c,
{
    if at(input, pos, seq![c]) {
        assert(input.subrange(pos, pos + 1)[0] == input[pos]);
    }
    if 0 <= pos < input.len() && input[pos] == c {
        assert(input.subrange(pos, pos + 1) =~= seq![c]);
    }
}

/// The characters of a string.
pub fn chars_of(text: &str) -> (r: Vec<char>)
    ensures
        r@ == text@,
{
    let mut chars: Vec<char> = Vec::new();
    for c in it: text.chars()
        invariant
            it.seq() == text@,
            chars@ == text@.take(it.index() as int),
    {
        chars.push(c);
    }
    chars
}

/// Whether `literal` stands in `input` at `pos`, and if so, the position
/// behind it.
pub fn expect(input: &Vec<char>, pos: usize, literal: &str) -> (r: Option<usize>)
    ensures
        match r {
            Some(end) => at(input@, pos as int, literal@) && end == pos + literal@.len(),
            None => !at(input@, pos as int, literal@),
        },
{
    if pos > input.len() {
        return None;
    }
    let mut i: usize = pos;
    for c in it: literal.chars()
        invariant
            it.seq() == literal@,
            i == pos + it.index(),
            i <= input@.len(),
            forall|k: int| 0 <= k < it.index() ==> input@[pos + k] == literal@[k],
    {
        if i >= input.len() || input[i] != c {
            proof {
                if at(input@, pos as int, literal@) {
                    let k = i - pos;
                    assert(input@.subrange(pos as int, pos + literal@.len())[k] == literal@[k]);
                }
            }
            return None;
        }
        i += 1;
    }
    assert(input@.subrange(pos as int, pos + literal@.len()) =~= literal@);
    Some(i)
}

fn hex_value_of(c: char) -> (r: Option<u8>)
    ensures
        match r {
            Some(value) => hex_value(c) == Some(value as int),
            None => hex_value(c) is None,
        },
{
    let code = c as u32;
    if 48 <= code && code <= 57 {
        Some((code - 48) as u8)
    } else if 97 <= code && code <= 102 {
        Some((code - 87) as u8)
    } else {
        None
    }
}

fn short_escape_of(c: char) -> (r: Option<char>)
    ensures
        r == short_escape(c),
{
    if c == '"' {
        Some('"')
    } else if c == '\\' {
        Some('\\')
    } else if c == '\u{8}' {
        Some('b')
    } else if c == '\u{c}' {
        Some('f')
    } else if c == '\n' {
        Some('n')
    } else if c == '\r' {
        Some('r')
    } else if c == '\t' {
        Some('t')
    } else {
        None
    }
}

fn short_unescape_of(letter: char) -> (r: Option<char>)
    ensures
        r == short_unescape(letter),
{
    if letter == '"' {
        Some('"')
    } else if letter == '\\' {
        Some('\\')
    } else if letter == 'b' {
        Some('\u{8}')
    } else if letter == 'f' {
        Some('\u{c}')
    } else if letter == 'n' {
        Some('\n')
    } else if letter == 'r' {
        Some('\r')
    } else if letter == 't' {
        Some('\t')
    } else {
        None
    }
}

/// Writes `c` at the end of `out` as it stands inside a quoted string.
fn push_escaped(out: &mut String, c: char)
    ensures
        final(out)@ == old(out)@ + escaped(c),
{
    match short_escape_of(c) {
        Some(letter) => {
            push_char(out, '\\');
            push_char(out, letter);
            assert(out@ =~= old(out)@ + escaped(c));
        },
        None => {
            let code = c as u32;
            if code < 0x20 {
                push_char(out, '\\');
                push_char(out, 'u');
                push_char(out, '0');
                push_char(out, '0');
                push_char(out, hex_digit_of((code / 16) as u8));
                push_char(out, hex_digit_of((code % 16) as u8));
                assert(out@ =~= old(out)@ + escaped(c));
            } else {
                push_char(out, c);
                assert(out@ =~= old(out)@ + escaped(c));
            }
        },
    }
}

/// Writes `text` at the end of `out` as a quoted string.
pub fn push_quoted(out: &mut String, text: &str)
    ensures
        final(out)@ == old(out)@ + quoted(text@),
{
    push_char(out, '"');
    assert(text@.take(0) =~= Seq::<char>::empty());
    assert(out@ =~= old(out)@ + seq!['"'] + escaped_text(text@.take(0)));
    for c in it: text.chars()
        invariant
            it.seq() == text@,
            out@ == old(out)@ + seq!['"'] + escaped_text(text@.take(it.index() as int)),
    {
        proof {
            lemma_escaped_text_push(text@.take(it.index() as int), c);
            assert(text@.take(it.index() as int).push(c) =~= text@.take(it.index() + 1));
        }
        push_escaped(out, c);
        assert(out@ =~= old(out)@ + seq!['"'] + escaped_text(text@.take(it.index() + 1)));
    }
    assert(text@.take(text@.len() as int) =~= text@);
    push_char(out, '"');
    assert(out@ =~= old(out)@ + quoted(text@));
}

/// The character whose escaped form stands in `input` at `pos`, and the
/// position behind that form.
fn read_escaped(input: &Vec<char>, pos: usize) -> (r: Option<(char, usize)>)
    requires
        pos < input@.len(),
    ensures
        match r {
            Some((c, next)) => unescape_at(input@, pos as int) == Some((c, next as int)),
            None => unescape_at(input@, pos as int) is None,
        },
{
    let len = input.len();
    let c = input[pos];
    if c == '"' || (c as u32) < 0x20 {
        None
    } else if c != '\\' {
        Some((c, pos + 1))
    } else if pos + 1 >= len {
        None
    } else if input[pos + 1] == 'u' {
        if len - pos < 6 || input[pos + 2] != '0' || input[pos + 3] != '0' {
            None
        } else {
            match (hex_value_of(input[pos + 4]), hex_value_of(input[pos + 5])) {
                (Some(high), Some(low)) => {
                    let code: u8 = 16 * high + low;
                    let decoded = code as char;
                    if code < 0x20 && short_escape_of(decoded).is_none() {
                        Some((decoded, pos + 6))
                    } else {
                        None
                    }
                },
                _ => None,
            }
        }
    } else {
        match short_unescape_of(input[pos + 1]) {
            Some(decoded) => Some((decoded, pos + 2)),
            None => None,
        }
    }
}

/// The text whose quoted form stands in `input` at `pos`, and the position
/// behind it.
pub fn read_quoted(input: &Vec<char>, pos: usize) -> (r: Option<(String, usize)>)
    ensures
        match r {
            Some((text, end)) => unquote(input@, pos as int) == Some((text@, end as int)),
            None => unquote(input@, pos as int) is None,
        },
{
    if pos >= input.len() || input[pos] != '"' {
        return None;
    }
    let mut text = String::new();
    let mut i: usize = pos + 1;
    assert(text@ =~= Seq::<char>::empty());
    assert(scan(input@, i as int) matches Some((rest, end)) ==> text@ + rest =~= rest);
    loop
        invariant
            pos < i <= input@.len(),
            input@[pos as int] == '"',
            scan(input@, pos + 1) == match scan(input@, i as int) {
                Some((rest, end)) => Some((text@ + rest, end)),
                None => None,
            },
        decreases input@.len() - i,
    {
        if i >= input.len() {
            return None;
        }
        if input[i] == '"' {
            assert(text@ + Seq::<char>::empty() =~= text@);
            assert(scan(input@, i as int) == Some((Seq::<char>::empty(), i + 1)));
            return Some((text, i + 1));
        }
        match read_escaped(input, i) {
            None => {
                return None;
            },
            Some((c, next)) => {
                proof {
                    lemma_unescape_sound(input@, i as int);
                    if let Some((rest, end)) = scan(input@, next as int) {
                        assert(text@ + (seq![c] + rest) =~= text@.push(c) + rest);
                    }
                }
                push_char(&mut text, c);
                i = next;
            },
        }
    }
}

} // verus!
