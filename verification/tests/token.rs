use launch_core::hex::to_hex;
use launch_core::token::{
    first_fresh, fresh_access_token, generate_access_token, token_from_seeds,
};

#[test]
fn token_is_the_hex_digest_of_the_three_numbers() {
    let expected = format!("{:x}", md5::compute("1000000000" .to_string() + "2000000000" + "7"));
    assert_eq!(token_from_seeds(1000000000, 2000000000, 7), expected);
    assert_eq!(token_from_seeds(1000000000, 2000000000, 7).len(), 32);
}

#[test]
fn generated_token_has_thirty_two_hex_digits() {
    let token = generate_access_token();
    assert_eq!(token.len(), 32);
    assert!(token.chars().all(|c| c.is_ascii_digit() || ('a'..='f').contains(&c)));
}

#[test]
fn hex_of_bytes() {
    assert_eq!(to_hex(&[0x00, 0x0f, 0xa0, 0xff]), "000fa0ff");
    assert_eq!(to_hex(&[]), "");
}

#[test]
fn tokens_differ_from_one_issuance_to_the_next() {
    let tokens: Vec<String> = (0..16).map(|_| generate_access_token()).collect();
    assert!(tokens.iter().any(|token| token != &tokens[0]));
}

#[test]
fn token_depends_on_each_of_the_three_numbers() {
    let base = token_from_seeds(1000000000, 1000000000, 0);
    assert_ne!(base, token_from_seeds(1000000001, 1000000000, 0));
    assert_ne!(base, token_from_seeds(1000000000, 1000000001, 0));
    assert_ne!(base, token_from_seeds(1000000000, 1000000000, 1));
    assert_eq!(base, format!("{:x}", md5::compute("100000000010000000000")));
}

#[test]
fn fresh_token_is_none_of_those_issued() {
    let none: Vec<String> = Vec::new();
    let first = fresh_access_token(&none).expect("a first token is always found");
    assert_eq!(first.len(), 32);
    let issued = vec![first.clone(), token_from_seeds(1000000000, 1000000000, 0)];
    let second = fresh_access_token(&issued).expect("a token is found");
    assert!(!issued.contains(&second));
}

fn strings(items: &[&str]) -> Vec<String> {
    items.iter().map(|s| s.to_string()).collect()
}

#[test]
fn first_fresh_is_the_first_that_was_not_issued() {
    let issued = strings(&["a", "b", "c"]);
    assert_eq!(first_fresh(&strings(&["a", "x", "b", "y"]), &issued), Some(1));
    assert_eq!(first_fresh(&strings(&["x", "a"]), &issued), Some(0));
    assert_eq!(first_fresh(&strings(&["c", "b", "a", "z"]), &issued), Some(3));
    assert_eq!(first_fresh(&strings(&["c", "b", "a", "a"]), &issued), None);
    assert_eq!(first_fresh(&strings(&[]), &issued), None);
    assert_eq!(first_fresh(&strings(&["a"]), &strings(&[])), Some(0));
}
