//! Frames with one or two values between fixed pieces of text, and what
//! reading them gives.

use vstd::prelude::*;
use vstd::string::StringExecFns;
use crate::text::texts;
use crate::wire::{at, expect, lemma_at_split, lemma_unquote_exact, push_quoted, quoted, read_quoted, unquote};
use crate::wire_list::{lemma_text_list_exact, push_list, read_list, text_list, untext_list};

verus! {

/// A frame with one text between `head` and `tail`.
pub open spec fn one_text(head: Seq<char>, tail: Seq<char>, text: Seq<char>) -> Seq<char> {
    head + quoted(text) + tail
}

/// The text of a frame with one text between `head` and `tail`.
pub open spec fn parse_one_text(input: Seq<char>, head: Seq<char>, tail: Seq<char>) -> Option<
    Seq<char>,
> {
    if !at(input, 0, head) {
        None
    } else {
        match unquote(input, head.len() as int) {
            Some((text, end)) => if at(input, end, tail) && end + tail.len() == input.len() {
                Some(text)
            } else {
                None
            },
            None => None,
        }
    }
}

/// Reading a frame with one text gives a text exactly for the frame of that
/// text.
pub proof fn lemma_one_text_exact(
    input: Seq<char>,
    head: Seq<char>,
    tail: Seq<char>,
    text: Seq<char>,
)
    ensures
        parse_one_text(input, head, tail) == Some(text) <==> input == one_text(head, tail, text),
{
    let start = head.len() as int;
    let end = start + quoted(text).len();
    lemma_unquote_exact(input, start, text, end);
    lemma_at_split(input, 0, head + quoted(text), tail);
    lemma_at_split(input, 0, head, quoted(text));
    if parse_one_text(input, head, tail) == Some(text) {
        let (found, found_end) = unquote(input, start).unwrap();
        lemma_unquote_exact(input, start, found, found_end);
        assert(input.subrange(0, input.len() as int) =~= input);
    }
    if input == one_text(head, tail, text) {
        assert(input.subrange(0, input.len() as int) =~= input);
    }
}

/// A frame with two texts between `head`, `middle` and `tail`.
pub open spec fn two_texts(
    head: Seq<char>,
    middle: Seq<char>,
    tail: Seq<char>,
    first: Seq<char>,
    second: Seq<char>,
) -> Seq<char> {
    head + quoted(first) + middle + quoted(second) + tail
}

/// The texts of a frame with two texts between `head`, `middle` and `tail`.
pub open spec fn parse_two_texts(
    input: Seq<char>,
    head: Seq<char>,
    middle: Seq<char>,
    tail: Seq<char>,
) -> Option<(Seq<char>, Seq<char>)> {
    if !at(input, 0, head) {
        None
    } else {
        match unquote(input, head.len() as int) {
            Some((first, next)) => if !at(input, next, middle) {
                None
            } else {
                match unquote(input, next + middle.len()) {
                    Some((second, end)) => if at(input, end, tail) && end + tail.len()
                        == input.len() {
                        Some((first, second))
                    } else {
                        None
                    },
                    None => None,
                }
            },
            None => None,
        }
    }
}

proof fn lemma_two_texts_sound(
    input: Seq<char>,
    head: Seq<char>,
    middle: Seq<char>,
    tail: Seq<char>,
    first: Seq<char>,
    second: Seq<char>,
)
    requires
        parse_two_texts(input, head, middle, tail) == Some((first, second)),
    ensures
        input == two_texts(head, middle, tail, first, second),
{
    let first_at = head.len() as int;
    let (found, next) = unquote(input, first_at).unwrap();
    lemma_unquote_exact(input, first_at, found, next);
    let second_at = next + middle.len();
    let (found_second, end) = unquote(input, second_at).unwrap();
    lemma_unquote_exact(input, second_at, found_second, end);
    let a1 = head + quoted(first);
    let a2 = a1 + middle;
    let a3 = a2 + quoted(second);
    let whole = a3 + tail;
    assert(at(input, 0, a1)) by {
        lemma_at_split(input, 0, head, quoted(first));
    }
    assert(at(input, 0, a2)) by {
        lemma_at_split(input, 0, a1, middle);
    }
    assert(at(input, 0, a3)) by {
        lemma_at_split(input, 0, a2, quoted(second));
    }
    assert(at(input, 0, whole)) by {
        lemma_at_split(input, 0, a3, tail);
    }
    assert(whole.len() == input.len());
    assert(input.subrange(0, input.len() as int) =~= input);
}

proof fn lemma_two_texts_complete(
    head: Seq<char>,
    middle: Seq<char>,
    tail: Seq<char>,
    first: Seq<char>,
    second: Seq<char>,
)
    ensures
        parse_two_texts(two_texts(head, middle, tail, first, second), head, middle, tail) == Some(
            (first, second),
        ),
{
    let a1 = head + quoted(first);
    let a2 = a1 + middle;
    let a3 = a2 + quoted(second);
    let input = a3 + tail;
    let first_at = head.len() as int;
    let middle_at = first_at + quoted(first).len();
    let second_at = middle_at + middle.len();
    let tail_at = second_at + quoted(second).len();
    assert(at(input, 0, input)) by {
        assert(input.subrange(0, input.len() as int) =~= input);
    }
    assert(at(input, 0, a3) && at(input, tail_at, tail)) by {
        lemma_at_split(input, 0, a3, tail);
    }
    assert(at(input, 0, a2) && at(input, second_at, quoted(second))) by {
        lemma_at_split(input, 0, a2, quoted(second));
    }
    assert(at(input, 0, a1) && at(input, middle_at, middle)) by {
        lemma_at_split(input, 0, a1, middle);
    }
    assert(at(input, 0, head) && at(input, first_at, quoted(first))) by {
        lemma_at_split(input, 0, head, quoted(first));
    }
    lemma_unquote_exact(input, first_at, first, middle_at);
    lemma_unquote_exact(input, second_at, second, tail_at);
}

/// Reading a frame with two texts gives two texts exactly for the frame of
/// those texts.
pub proof fn lemma_two_texts_exact(
    input: Seq<char>,
    head: Seq<char>,
    middle: Seq<char>,
    tail: Seq<char>,
    first: Seq<char>,
    second: Seq<char>,
)
    ensures
        parse_two_texts(input, head, middle, tail) == Some((first, second)) <==> input
            == two_texts(head, middle, tail, first, second),
{
    if parse_two_texts(input, head, middle, tail) == Some((first, second)) {
        lemma_two_texts_sound(input, head, middle, tail, first, second);
    }
    if input == two_texts(head, middle, tail, first, second) {
        lemma_two_texts_complete(head, middle, tail, first, second);
    }
}

/// A frame with one list of texts between `head` and `tail`.
pub open spec fn one_list(head: Seq<char>, tail: Seq<char>, list: Seq<Seq<char>>) -> Seq<char> {
    head + text_list(list) + tail
}

/// The list of a frame with one list of texts between `head` and `tail`.
pub open spec fn parse_one_list(input: Seq<char>, head: Seq<char>, tail: Seq<char>) -> Option<
    Seq<Seq<char>>,
> {
    if !at(input, 0, head) {
        None
    } else {
        match untext_list(input, head.len() as int) {
            Some((list, end)) => if at(input, end, tail) && end + tail.len() == input.len() {
                Some(list)
            } else {
                None
            },
            None => None,
        }
    }
}

/// Reading a frame with one list gives a list exactly for the frame of that
/// list.
pub proof fn lemma_one_list_exact(
    input: Seq<char>,
    head: Seq<char>,
    tail: Seq<char>,
    list: Seq<Seq<char>>,
)
    ensures
        parse_one_list(input, head, tail) == Some(list) <==> input == one_list(head, tail, list),
{
    let start = head.len() as int;
    let end = start + text_list(list).len();
    lemma_text_list_exact(input, start, list, end);
    lemma_at_split(input, 0, head + text_list(list), tail);
    lemma_at_split(input, 0, head, text_list(list));
    if parse_one_list(input, head, tail) == Some(list) {
        let (found, found_end) = untext_list(input, start).unwrap();
        lemma_text_list_exact(input, start, found, found_end);
        assert(input.subrange(0, input.len() as int) =~= input);
    }
    if input == one_list(head, tail, list) {
        assert(input.subrange(0, input.len() as int) =~= input);
    }
}

/// Writes the frame of one text.
pub fn write_one_text(head: &str, tail: &str, text: &str) -> (r: String)
    ensures
        r@ == one_text(head@, tail@, text@),
{
    let mut out = String::from_str(head);
    push_quoted(&mut out, text);
    out.append(tail);
    out
}

/// Writes the frame of two texts.
pub fn write_two_texts(head: &str, middle: &str, tail: &str, first: &str, second: &str) -> (r:
    String)
    ensures
        r@ == two_texts(head@, middle@, tail@, first@, second@),
{
    let mut out = String::from_str(head);
    push_quoted(&mut out, first);
    out.append(middle);
    push_quoted(&mut out, second);
    out.append(tail);
    out
}

/// Writes the frame of one list of texts.
pub fn write_one_list(head: &str, tail: &str, list: &Vec<String>) -> (r: String)
    ensures
        r@ == one_list(head@, tail@, texts(list@)),
{
    let mut out = String::from_str(head);
    push_list(&mut out, list);
    out.append(tail);
    out
}

/// Whether `tail` stands in `input` at `pos` and ends it.
fn ends_with(input: &Vec<char>, pos: usize, tail: &str) -> (r: bool)
    ensures
        r == (at(input@, pos as int, tail@) && pos + tail@.len() == input@.len()),
{
    match expect(input, pos, tail) {
        Some(end) => end == input.len(),
        None => false,
    }
}

/// Reads the frame of one text.
pub fn read_one_text(input: &Vec<char>, head: &str, tail: &str) -> (r: Option<String>)
    ensures
        match r {
            Some(text) => parse_one_text(input@, head@, tail@) == Some(text@),
            None => parse_one_text(input@, head@, tail@) is None,
        },
{
    let start = match expect(input, 0, head) {
        Some(start) => start,
        None => {
            return None;
        },
    };
    match read_quoted(input, start) {
        Some((text, end)) => if ends_with(input, end, tail) {
            Some(text)
        } else {
            None
        },
        None => None,
    }
}

/// Reads the frame of two texts.
pub fn read_two_texts(input: &Vec<char>, head: &str, middle: &str, tail: &str) -> (r: Option<
    (String, String),
>)
    ensures
        match r {
            Some((first, second)) => parse_two_texts(input@, head@, middle@, tail@) == Some(
                (first@, second@),
            ),
            None => parse_two_texts(input@, head@, middle@, tail@) is None,
        },
{
    let start = match expect(input, 0, head) {
        Some(start) => start,
        None => {
            return None;
        },
    };
    let (first, next) = match read_quoted(input, start) {
        Some(found) => found,
        None => {
            return None;
        },
    };
    let from = match expect(input, next, middle) {
        Some(from) => from,
        None => {
            return None;
        },
    };
    match read_quoted(input, from) {
        Some((second, end)) => if ends_with(input, end, tail) {
            Some((first, second))
        } else {
            None
        },
        None => None,
    }
}

/// Reads the frame of one list of texts.
pub fn read_one_list(input: &Vec<char>, head: &str, tail: &str) -> (r: Option<Vec<String>>)
    ensures
        match r {
            Some(list) => parse_one_list(input@, head@, tail@) == Some(texts(list@)),
            None => parse_one_list(input@, head@, tail@) is None,
        },
{
    let start = match expect(input, 0, head) {
        Some(start) => start,
        None => {
            return None;
        },
    };
    match read_list(input, start) {
        Some((list, end)) => if ends_with(input, end, tail) {
            Some(list)
        } else {
            None
        },
        None => None,
    }
}

} // verus!
