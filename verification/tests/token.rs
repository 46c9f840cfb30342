use ilegallearn_desktop::token::{code_challenge, random_token, token_of};

#[test]
fn tokens_are_alphanumeric() {
    for length in [0usize, 1, 48, 96, 500] {
        let token = random_token(length);
        assert_eq!(token.len(), length);
        assert!(token.chars().all(|c| c.is_ascii_alphanumeric()));
    }
}

#[test]
fn token_of_drawn_bytes() {
    assert_eq!(token_of(&vec![b'a', b'Z', b'0', b'9']), "aZ09");
    assert_eq!(token_of(&Vec::new()), "");
}

#[test]
fn tokens_vary() {
    assert_ne!(random_token(96), random_token(96));
}

#[test]
fn challenge_of_a_known_verifier() {
    assert_eq!(
        code_challenge("dBjftJeZ4CVP-mB92K27uhbUJU1p1r_wW1gFWFOEjXk"),
        "E9Melhoa2OwvFrEMTJguCHaoeK1t8URWbuGJSstw-cM"
    );
    assert_eq!(code_challenge(""), "47DEQpj8HBSa-_TImW-5JCeuQeRkm5NMpJWZG3hSuFU");
}
