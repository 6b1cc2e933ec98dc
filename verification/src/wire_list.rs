//! Lists of strings in a frame: the quoted strings between brackets, with a
//! comma between two of them.

use vstd::prelude::*;
use crate::text::texts;
use crate::wire::{at, lemma_unquote_exact, push_quoted, quoted, read_quoted, unquote};
use crate::wire_items::{lemma_unlist_exact, list_text, push_items, read_items, said_all, unlist, Framed};

verus! {

impl Framed for String {
    type Said = Seq<char>;

    open spec fn said(&self) -> Seq<char> {
        self@
    }

    open spec fn framed(said: Seq<char>) -> Seq<char> {
        quoted(said)
    }

    open spec fn unframed(input: Seq<char>, pos: int) -> Option<(Seq<char>, int)> {
        unquote(input, pos)
    }

    proof fn lemma_exact(input: Seq<char>, pos: int, said: Seq<char>, end: int) {
        lemma_unquote_exact(input, pos, said, end);
    }

    proof fn lemma_opens(said: Seq<char>) {
    }

    fn push_framed(&self, out: &mut String) {
        push_quoted(out, self.as_str());
    }

    fn read_framed(input: &Vec<char>, pos: usize) -> (r: Option<(String, usize)>) {
        read_quoted(input, pos)
    }
}

/// A list of strings as it stands in a frame.
pub open spec fn text_list(list: Seq<Seq<char>>) -> Seq<char> {
    list_text::<String>(list)
}

/// The list of strings that stands in `input` at `pos`, and the position
/// behind it.
pub open spec fn untext_list(input: Seq<char>, pos: int) -> Option<(Seq<Seq<char>>, int)> {
    unlist::<String>(input, pos)
}

/// Reading finds a list of strings exactly where the list stands.
pub proof fn lemma_text_list_exact(input: Seq<char>, pos: int, list: Seq<Seq<char>>, end: int)
    ensures
        untext_list(input, pos) == Some((list, end)) <==> at(input, pos, text_list(list)) && end
            == pos + text_list(list).len(),
{
    lemma_unlist_exact::<String>(input, pos, list, end);
}

/// Writes a list of strings at the end of `out` as it stands in a frame.
pub fn push_list(out: &mut String, list: &Vec<String>)
    ensures
        final(out)@ == old(out)@ + text_list(texts(list@)),
{
    push_items(out, list);
    assert(said_all(list@) =~= texts(list@));
}

/// The list of strings that stands in `input` at `pos`, and the position
/// behind it.
pub fn read_list(input: &Vec<char>, pos: usize) -> (r: Option<(Vec<String>, usize)>)
    ensures
        match r {
            Some((list, end)) => untext_list(input@, pos as int) == Some(
                (texts(list@), end as int),
            ),
            None => untext_list(input@, pos as int) is None,
        },
{
    let found = read_items::<String>(input, pos);
    match found {
        Some((list, end)) => {
            assert(said_all(list@) =~= texts(list@));
            Some((list, end))
        },
        None => None,
    }
}

} // verus!
