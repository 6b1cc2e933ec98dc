//! Lists in a frame: the items between brackets, with a comma between two of
//! them, for every kind of item that can be written and read by itself.

use vstd::prelude::*;
use crate::text::push_char;
use crate::wire::{at, lemma_at_char, lemma_at_split};

verus! {

/// A value that has a place in a frame.
pub trait Framed: Sized {
    /// What a value says.
    type Said;

    /// What this value says.
    spec fn said(&self) -> Self::Said;

    /// A value as it stands in a frame.
    spec fn framed(said: Self::Said) -> Seq<char>;

    /// The value that stands in `input` at `pos`, and the position behind
    /// it.
    spec fn unframed(input: Seq<char>, pos: int) -> Option<(Self::Said, int)>;

    /// Reading finds a value exactly where the value stands.
    proof fn lemma_exact(input: Seq<char>, pos: int, said: Self::Said, end: int)
        ensures
            Self::unframed(input, pos) == Some((said, end)) <==> at(
                input,
                pos,
                Self::framed(said),
            ) && end == pos + Self::framed(said).len(),
    ;

    /// No value opens with the bracket that closes a list.
    proof fn lemma_opens(said: Self::Said)
        ensures
            Self::framed(said).len() > 0,
            Self::framed(said)[0] != ']',
    ;

    /// Writes the value at the end of `out`.
    fn push_framed(&self, out: &mut String)
        ensures
            final(out)@ == old(out)@ + Self::framed(self.said()),
    ;

    /// Reads the value that stands in `input` at `pos`.
    fn read_framed(input: &Vec<char>, pos: usize) -> (r: Option<(Self, usize)>)
        ensures
            match r {
                Some((value, end)) => Self::unframed(input@, pos as int) == Some(
                    (value.said(), end as int),
                ),
                None => Self::unframed(input@, pos as int) is None,
            },
    ;
}

/// What the values of a list say.
pub open spec fn said_all<T: Framed>(list: Seq<T>) -> Seq<T::Said> {
    list.map_values(|value: T| value.said())
}

/// The items of a list that is not empty, and the closing bracket.
pub open spec fn items_text<T: Framed>(list: Seq<T::Said>) -> Seq<char>
    decreases list.len(),
{
    if list.len() <= 1 {
        T::framed(list.first()) + seq![']']
    } else {
        T::framed(list.first()) + seq![','] + items_text::<T>(list.drop_first())
    }
}

/// A list as it stands in a frame.
pub open spec fn list_text<T: Framed>(list: Seq<T::Said>) -> Seq<char> {
    if list.len() == 0 {
        seq!['[', ']']
    } else {
        seq!['['] + items_text::<T>(list)
    }
}

/// The items that stand in `input` from `pos` up to the closing bracket,
/// and the position behind that bracket.
pub open spec fn scan_items<T: Framed>(input: Seq<char>, pos: int) -> Option<(Seq<T::Said>, int)>
    decreases input.len() - pos,
{
    match T::unframed(input, pos) {
        Some((item, next)) => if next <= pos || next >= input.len() {
            None
        } else if input[next] == ']' {
            Some((seq![item], next + 1))
        } else if input[next] == ',' {
            match scan_items::<T>(input, next + 1) {
                Some((rest, end)) => Some((seq![item] + rest, end)),
                None => None,
            }
        } else {
            None
        },
        None => None,
    }
}

/// The list that stands in `input` at `pos`, and the position behind it.
pub open spec fn unlist<T: Framed>(input: Seq<char>, pos: int) -> Option<(Seq<T::Said>, int)> {
    if !(0 <= pos < input.len()) || input[pos] != '[' {
        None
    } else if pos + 1 < input.len() && input[pos + 1] == ']' {
        Some((Seq::empty(), pos + 2))
    } else {
        scan_items::<T>(input, pos + 1)
    }
}

proof fn lemma_scan_items_sound<T: Framed>(input: Seq<char>, pos: int)
    requires
        scan_items::<T>(input, pos) is Some,
    ensures
        ({
            let (list, end) = scan_items::<T>(input, pos).unwrap();
            list.len() > 0 && at(input, pos, items_text::<T>(list)) && end == pos + items_text::<T>(
                list,
            ).len()
        }),
    decreases input.len() - pos,
{
    let (list, end) = scan_items::<T>(input, pos).unwrap();
    let (item, next) = T::unframed(input, pos).unwrap();
    T::lemma_exact(input, pos, item, next);
    if input[next] == ']' {
        lemma_at_char(input, next, ']');
        lemma_at_split(input, pos, T::framed(item), seq![']']);
    } else {
        lemma_scan_items_sound::<T>(input, next + 1);
        let (rest, _) = scan_items::<T>(input, next + 1).unwrap();
        assert(list.first() == item);
        assert(list.drop_first() =~= rest);
        lemma_at_char(input, next, ',');
        lemma_at_split(input, pos, T::framed(item), seq![',']);
        lemma_at_split(input, pos, T::framed(item) + seq![','], items_text::<T>(rest));
    }
}

proof fn lemma_scan_items_complete<T: Framed>(input: Seq<char>, pos: int, list: Seq<T::Said>)
    requires
        list.len() > 0,
        at(input, pos, items_text::<T>(list)),
    ensures
        scan_items::<T>(input, pos) == Some((list, pos + items_text::<T>(list).len())),
    decreases list.len(),
{
    let item = list.first();
    let next = pos + T::framed(item).len();
    T::lemma_opens(item);
    if list.len() == 1 {
        lemma_at_split(input, pos, T::framed(item), seq![']']);
        lemma_at_char(input, next, ']');
        T::lemma_exact(input, pos, item, next);
        assert(seq![item] =~= list);
    } else {
        let rest = list.drop_first();
        lemma_at_split(input, pos, T::framed(item) + seq![','], items_text::<T>(rest));
        lemma_at_split(input, pos, T::framed(item), seq![',']);
        lemma_at_char(input, next, ',');
        T::lemma_exact(input, pos, item, next);
        lemma_scan_items_complete::<T>(input, next + 1, rest);
        assert(seq![item] + rest =~= list);
    }
}

/// Reading finds a list exactly where the list stands.
pub proof fn lemma_unlist_exact<T: Framed>(input: Seq<char>, pos: int, list: Seq<T::Said>, end: int)
    ensures
        unlist::<T>(input, pos) == Some((list, end)) <==> at(input, pos, list_text::<T>(list))
            && end == pos + list_text::<T>(list).len(),
{
    if unlist::<T>(input, pos) == Some((list, end)) {
        lemma_at_char(input, pos, '[');
        if pos + 1 < input.len() && input[pos + 1] == ']' {
            lemma_at_char(input, pos + 1, ']');
            lemma_at_split(input, pos, seq!['['], seq![']']);
            assert(seq!['['] + seq![']'] =~= seq!['[', ']']);
        } else {
            lemma_scan_items_sound::<T>(input, pos + 1);
            lemma_at_split(input, pos, seq!['['], items_text::<T>(list));
        }
    }
    if at(input, pos, list_text::<T>(list)) && end == pos + list_text::<T>(list).len() {
        if list.len() == 0 {
            assert(seq!['['] + seq![']'] =~= seq!['[', ']']);
            lemma_at_split(input, pos, seq!['['], seq![']']);
            lemma_at_char(input, pos, '[');
            lemma_at_char(input, pos + 1, ']');
            assert(list =~= Seq::empty());
        } else {
            lemma_at_split(input, pos, seq!['['], items_text::<T>(list));
            lemma_at_char(input, pos, '[');
            lemma_scan_items_complete::<T>(input, pos + 1, list);
            let first = T::framed(list.first());
            T::lemma_opens(list.first());
            if list.len() == 1 {
                lemma_at_split(input, pos + 1, first, seq![']']);
            } else {
                lemma_at_split(
                    input,
                    pos + 1,
                    first + seq![','],
                    items_text::<T>(list.drop_first()),
                );
                lemma_at_split(input, pos + 1, first, seq![',']);
            }
            assert(input.subrange(pos + 1, pos + 1 + first.len())[0] == input[pos + 1]);
        }
    }
}

proof fn lemma_items_text_push<T: Framed>(list: Seq<T::Said>, item: T::Said)
    requires
        list.len() > 0,
    ensures
        items_text::<T>(list).len() > 0,
        items_text::<T>(list.push(item)) == items_text::<T>(list).drop_last() + seq![',']
            + T::framed(item) + seq![']'],
    decreases list.len(),
{
    let more = list.push(item);
    assert(more.first() == list.first());
    assert(more.drop_first() =~= list.drop_first().push(item));
    if list.len() == 1 {
        let tail = more.drop_first();
        assert(tail.len() == 1 && tail.first() == item);
        assert(items_text::<T>(tail) =~= T::framed(item) + seq![']']);
        assert(items_text::<T>(more) =~= items_text::<T>(list).drop_last() + seq![','] + T::framed(
            item,
        ) + seq![']']);
    } else {
        lemma_items_text_push::<T>(list.drop_first(), item);
        assert(items_text::<T>(more) =~= items_text::<T>(list).drop_last() + seq![','] + T::framed(
            item,
        ) + seq![']']);
    }
}

/// Writes `list` at the end of `out` as it stands in a frame.
pub fn push_items<T: Framed>(out: &mut String, list: &Vec<T>)
    ensures
        final(out)@ == old(out)@ + list_text::<T>(said_all(list@)),
{
    push_char(out, '[');
    let mut i: usize = 0;
    while i < list.len()
        invariant
            i <= list@.len(),
            i == 0 ==> out@ == old(out)@ + seq!['['],
            i > 0 ==> out@ + seq![']'] == old(out)@ + seq!['['] + items_text::<T>(
                said_all(list@).take(i as int),
            ),
        decreases list@.len() - i,
    {
        let ghost before = out@;
        let ghost done = said_all(list@).take(i as int);
        let ghost item = list@[i as int].said();
        if i > 0 {
            push_char(out, ',');
        }
        list[i].push_framed(out);
        proof {
            let next = said_all(list@).take(i + 1);
            assert(next =~= done.push(item));
            if i == 0 {
                assert(next.first() == item);
                assert(out@ + seq![']'] =~= old(out)@ + seq!['['] + items_text::<T>(next));
            } else {
                lemma_items_text_push::<T>(done, item);
                assert(before =~= (before + seq![']']).drop_last());
                assert(before =~= old(out)@ + seq!['['] + items_text::<T>(done).drop_last());
                assert(out@ + seq![']'] =~= old(out)@ + seq!['['] + items_text::<T>(next));
            }
        }
        i += 1;
    }
    let ghost before = out@;
    push_char(out, ']');
    proof {
        assert(said_all(list@).take(i as int) =~= said_all(list@));
        if i == 0 {
            assert(out@ =~= old(out)@ + seq!['[', ']']);
        } else {
            assert(out@ =~= before + seq![']']);
            assert(out@ =~= old(out)@ + (seq!['['] + items_text::<T>(said_all(list@))));
        }
    }
}

/// The list that stands in `input` at `pos`, and the position behind it.
pub fn read_items<T: Framed>(input: &Vec<char>, pos: usize) -> (r: Option<(Vec<T>, usize)>)
    ensures
        match r {
            Some((list, end)) => unlist::<T>(input@, pos as int) == Some(
                (said_all(list@), end as int),
            ),
            None => unlist::<T>(input@, pos as int) is None,
        },
{
    let len = input.len();
    if pos >= len || input[pos] != '[' {
        return None;
    }
    let mut list: Vec<T> = Vec::new();
    if pos + 1 < len && input[pos + 1] == ']' {
        assert(said_all(list@) =~= Seq::<T::Said>::empty());
        return Some((list, pos + 2));
    }
    let mut i: usize = pos + 1;
    assert(scan_items::<T>(input@, i as int) matches Some((rest, end)) ==> said_all(list@) + rest
        =~= rest);
    loop
        invariant
            pos < i <= input@.len(),
            len == input@.len(),
            input@[pos as int] == '[',
            !(pos + 1 < input@.len() && input@[pos + 1] == ']'),
            scan_items::<T>(input@, pos + 1) == match scan_items::<T>(input@, i as int) {
                Some((rest, end)) => Some((said_all(list@) + rest, end)),
                None => None,
            },
        decreases input@.len() - i,
    {
        match T::read_framed(input, i) {
            None => {
                return None;
            },
            Some((value, next)) => {
                proof {
                    T::lemma_exact(input@, i as int, value.said(), next as int);
                    T::lemma_opens(value.said());
                }
                if next >= len {
                    return None;
                }
                let ghost before = said_all(list@);
                let ghost item = value.said();
                if input[next] == ']' {
                    list.push(value);
                    assert(said_all(list@) =~= before + seq![item]);
                    return Some((list, next + 1));
                } else if input[next] == ',' {
                    list.push(value);
                    proof {
                        assert(said_all(list@) =~= before.push(item));
                        if let Some((rest, end)) = scan_items::<T>(input@, next + 1) {
                            assert(before + (seq![item] + rest) =~= before.push(item) + rest);
                        }
                    }
                    i = next + 1;
                } else {
                    return None;
                }
            },
        }
    }
}

} // verus!
