//! Access tokens: thirty-two hexadecimal digits, the MD5 digest of three
//! random numbers written one after another, and the search for a token that
//! was not issued before.

use rand::Rng;
use vstd::prelude::*;
use crate::hex::{hex_lower, lemma_hex_lower_len, to_hex};
use crate::text::{contains_text, decimal, push_decimal, texts};

verus! {

/// The MD5 digest of a message, as the `md5` crate computes it.
pub uninterp spec fn md5_of(data: Seq<u8>) -> Seq<u8>;

/// `md5::compute`, taken on trust: the sixteen bytes that come back are the
/// digest of `data`. Of the digest nothing more is said here than its name.
#[verifier::external_body]
fn md5_digest(data: &[u8]) -> (r: [u8; 16])
    ensures
        r@ == md5_of(data@),
{
    md5::compute(data).0
}

/// `Rng::gen_range` of `rand`, on the generator that `rand::thread_rng`
/// gives the calling thread, taken on trust: some number from `low` up to,
/// but without, `high`. Which one is not said, and two calls may differ. The
/// call panics where `low` is not below `high`.
#[verifier::external_body]
fn random_in_range(low: u32, high: u32) -> (r: u32)
    requires
        low < high,
    ensures
        low <= r < high,
{
    rand::thread_rng().gen_range(low, high)
}

/// The least of the two large numbers that a token is made of.
pub const SEED_LOW: u32 = 1000000000;

/// The bound that the two large numbers stay below.
pub const SEED_HIGH: u32 = 2147483647;

/// The bound that the small number stays below.
pub const SALT_HIGH: u32 = 9;

/// The three numbers can be those that a token is made of.
pub open spec fn seeds_in_range(first: u32, second: u32, salt: u32) -> bool {
    &&& SEED_LOW <= first < SEED_HIGH
    &&& SEED_LOW <= second < SEED_HIGH
    &&& salt < SALT_HIGH
}

/// The text that is hashed: the three numbers in decimal, one after another.
pub open spec fn seed_text(first: u32, second: u32, salt: u32) -> Seq<char> {
    decimal(first as nat) + decimal(second as nat) + decimal(salt as nat)
}

/// The token for three numbers: the digest of their text in UTF-8, in
/// hexadecimal.
pub open spec fn token_of(first: u32, second: u32, salt: u32) -> Seq<char> {
    hex_lower(md5_of(vstd::utf8::encode_utf8(seed_text(first, second, salt))))
}

/// The token for three given numbers.
pub fn token_from_seeds(first: u32, second: u32, salt: u32) -> (r: String)
    ensures
        r@ == token_of(first, second, salt),
        r@.len() == 32,
{
    let mut seed = String::new();
    push_decimal(&mut seed, first as u64);
    push_decimal(&mut seed, second as u64);
    push_decimal(&mut seed, salt as u64);
    assert(seed@ =~= seed_text(first, second, salt));
    let digest = md5_digest(seed.as_str().as_bytes());
    proof {
        lemma_hex_lower_len(digest@);
    }
    to_hex(digest.as_slice())
}

/// A fresh access token. The numbers behind it are drawn at random, so two
/// calls give, as a rule, two tokens.
pub fn generate_access_token() -> (r: String)
    ensures
        exists|first: u32, second: u32, salt: u32|
            seeds_in_range(first, second, salt) && r@ == #[trigger] token_of(first, second, salt),
        r@.len() == 32,
{
    let first = random_in_range(SEED_LOW, SEED_HIGH);
    let second = random_in_range(SEED_LOW, SEED_HIGH);
    let salt = random_in_range(0, SALT_HIGH);
    let token = token_from_seeds(first, second, salt);
    assert(seeds_in_range(first, second, salt) && token@ == token_of(first, second, salt));
    token
}

/// The text is a token: that of three numbers that can be drawn.
pub open spec fn is_token(text: Seq<char>) -> bool {
    exists|first: u32, second: u32, salt: u32|
        seeds_in_range(first, second, salt) && text == #[trigger] token_of(first, second, salt)
}

/// Every text of the list is a token.
pub open spec fn all_tokens(drawn: Seq<Seq<char>>) -> bool {
    forall|i: int| 0 <= i < drawn.len() ==> is_token(#[trigger] drawn[i])
}

/// The token of `drawn` at `i` is the first that is not among `issued`.
pub open spec fn is_first_fresh(drawn: Seq<Seq<char>>, issued: Seq<Seq<char>>, i: int) -> bool {
    &&& 0 <= i < drawn.len()
    &&& !issued.contains(drawn[i])
    &&& forall|j: int| 0 <= j < i ==> issued.contains(#[trigger] drawn[j])
}

/// Every token of `drawn` is among `issued`.
pub open spec fn none_fresh(drawn: Seq<Seq<char>>, issued: Seq<Seq<char>>) -> bool {
    forall|j: int| 0 <= j < drawn.len() ==> issued.contains(#[trigger] drawn[j])
}

/// How many tokens are drawn for one search.
pub const DRAWS: usize = 8;

/// What a search among the tokens `drawn` comes to: the first of them that
/// is not among `issued`, and nothing exactly when all of them are.
pub open spec fn search_finds(
    drawn: Seq<Seq<char>>,
    issued: Seq<Seq<char>>,
    found: Option<Seq<char>>,
) -> bool {
    &&& drawn.len() == DRAWS
    &&& all_tokens(drawn)
    &&& match found {
        Some(token) => exists|i: int| #[trigger] is_first_fresh(drawn, issued, i) && drawn[i] == token,
        None => none_fresh(drawn, issued),
    }
}

/// What an optional string says.
pub open spec fn said(found: Option<String>) -> Option<Seq<char>> {
    match found {
        Some(token) => Some(token@),
        None => None,
    }
}

/// The place of the first token of `drawn` that is not among `issued`, and
/// none exactly when every token of `drawn` is among them.
pub fn first_fresh(drawn: &Vec<String>, issued: &Vec<String>) -> (r: Option<usize>)
    ensures
        match r {
            Some(i) => is_first_fresh(texts(drawn@), texts(issued@), i as int),
            None => none_fresh(texts(drawn@), texts(issued@)),
        },
{
    let mut i: usize = 0;
    while i < drawn.len()
        invariant
            i <= drawn@.len(),
            forall|j: int| 0 <= j < i ==> texts(issued@).contains(#[trigger] texts(drawn@)[j]),
        decreases drawn@.len() - i,
    {
        if !contains_text(issued, &drawn[i]) {
            return Some(i);
        }
        i += 1;
    }
    None
}

/// As many fresh draws as one search takes.
fn draw_tokens() -> (r: Vec<String>)
    ensures
        r@.len() == DRAWS,
        all_tokens(texts(r@)),
        forall|i: int| 0 <= i < r@.len() ==> (#[trigger] r@[i])@.len() == 32,
{
    let mut drawn: Vec<String> = Vec::new();
    while drawn.len() < DRAWS
        invariant
            drawn@.len() <= DRAWS,
            all_tokens(texts(drawn@)),
            forall|i: int| 0 <= i < drawn@.len() ==> (#[trigger] drawn@[i])@.len() == 32,
        decreases DRAWS - drawn@.len(),
    {
        let token = generate_access_token();
        let ghost before = texts(drawn@);
        drawn.push(token);
        assert(texts(drawn@) =~= before.push(token@));
    }
    drawn
}

/// A fresh access token that is none of those issued before: of the tokens
/// that are drawn, the first that was not issued. Where every one of them was
/// issued before, there is none; that cannot happen while nothing was issued.
pub fn fresh_access_token(issued: &Vec<String>) -> (r: Option<String>)
    ensures
        exists|drawn: Seq<Seq<char>>|
            #[trigger] search_finds(drawn, texts(issued@), said(r)),
        match r {
            Some(token) => is_token(token@) && token@.len() == 32 && !texts(issued@).contains(
                token@,
            ),
            None => issued@.len() > 0,
        },
{
    let drawn = draw_tokens();
    match first_fresh(&drawn, issued) {
        Some(i) => {
            let token = drawn[i].clone();
            proof {
                assert(texts(drawn@)[i as int] == token@);
                assert(is_first_fresh(texts(drawn@), texts(issued@), i as int));
                assert(search_finds(texts(drawn@), texts(issued@), Some(token@)));
            }
            Some(token)
        },
        None => {
            proof {
                assert(texts(issued@).contains(texts(drawn@)[0]));
                assert(search_finds(texts(drawn@), texts(issued@), None));
            }
            None
        },
    }
}

} // verus!
