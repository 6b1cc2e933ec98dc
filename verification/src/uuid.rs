//! Identities: sixteen bytes, written as thirty-two hexadecimal digits in
//! groups of eight, four, four, four and twelve.

use vstd::prelude::*;
use crate::hex::{hex_lower, push_hex};
use crate::text::push_char;

verus! {

/// The sixteen bytes of an identity in the hyphenated form.
pub open spec fn hyphenated(bytes: Seq<u8>) -> Seq<char> {
    hex_lower(bytes.subrange(0, 4)) + seq!['-'] + hex_lower(bytes.subrange(4, 6)) + seq!['-']
        + hex_lower(bytes.subrange(6, 8)) + seq!['-'] + hex_lower(bytes.subrange(8, 10)) + seq![
        '-',
    ] + hex_lower(bytes.subrange(10, 16))
}

/// The unique identity of a player.
#[derive(Clone, Copy, Debug)]
pub struct Uuid {
    pub bytes: [u8; 16],
}

impl Uuid {
    /// The identity with these bytes.
    pub fn from_bytes(bytes: [u8; 16]) -> (r: Uuid)
        ensures
            r.bytes == bytes,
    {
        Uuid { bytes }
    }

    /// The identity as text.
    pub open spec fn text(&self) -> Seq<char> {
        hyphenated(self.bytes@)
    }

    /// The identity in the hyphenated form, in lower case.
    pub fn to_hyphenated(&self) -> (r: String)
        ensures
            r@ == self.text(),
    {
        let bytes = self.bytes.as_slice();
        let mut text = String::new();
        push_hex(&mut text, bytes, 0, 4);
        push_char(&mut text, '-');
        push_hex(&mut text, bytes, 4, 6);
        push_char(&mut text, '-');
        push_hex(&mut text, bytes, 6, 8);
        push_char(&mut text, '-');
        push_hex(&mut text, bytes, 8, 10);
        push_char(&mut text, '-');
        push_hex(&mut text, bytes, 10, 16);
        assert(text@ =~= hyphenated(self.bytes@));
        text
    }
}

} // verus!
