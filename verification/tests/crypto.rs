use blooket_engine::crypto::{
    b64_decode, b64_encode, build_join_payload, delay_with_jitter, human_delay_ms,
    random_player_id, random_session_token, token_from_draws, DecodeFailure, TOKEN_ALPHABET,
};

#[test]
fn test_random_player_id() {
    let id = random_player_id();
    assert!(id.len() >= 9);
    assert!(id.parse::<u64>().is_ok());
}

#[test]
fn test_b64_roundtrip() {
    let original = "hello blooket";
    let encoded = b64_encode(original);
    let decoded = b64_decode(&encoded).unwrap();
    assert_eq!(original, decoded);
}

#[test]
fn player_id_is_nine_digits_in_range() {
    for _ in 0..200 {
        let id = random_player_id();
        assert_eq!(id.len(), 9);
        assert!(id.chars().all(|c| c.is_ascii_digit()));
        let n: u64 = id.parse().unwrap();
        assert!((100_000_000..999_999_999).contains(&n));
    }
}

#[test]
fn session_token_has_length_and_alphabet() {
    for len in [0usize, 1, 16, 64] {
        let t = random_session_token(len);
        assert_eq!(t.chars().count(), len);
        assert!(t.chars().all(|c| TOKEN_ALPHABET.contains(c)));
    }
}

#[test]
fn b64_encode_known_values() {
    assert_eq!(b64_encode(""), "");
    assert_eq!(b64_encode("a"), "YQ==");
    assert_eq!(b64_encode("ab"), "YWI=");
    assert_eq!(b64_encode("abc"), "YWJj");
    assert_eq!(b64_encode("hello"), "aGVsbG8=");
    assert_eq!(b64_encode("é"), "w6k=");
}

#[test]
fn b64_roundtrip_unicode() {
    for s in ["", "x", "Blooket 🎮 claw", "ünïcödé"] {
        assert_eq!(b64_decode(&b64_encode(s)).unwrap(), s);
    }
}

#[test]
fn b64_decode_rejects_invalid_base64() {
    assert_eq!(b64_decode("@@@@"), Err(DecodeFailure::InvalidBase64));
    assert_eq!(b64_decode("YQ"), Err(DecodeFailure::InvalidBase64));
    assert_eq!(b64_decode("YR=="), Err(DecodeFailure::InvalidBase64));
    assert_eq!(b64_decode("Y"), Err(DecodeFailure::InvalidBase64));
}

#[test]
fn b64_decode_rejects_invalid_utf8() {
    assert_eq!(b64_decode("/w=="), Err(DecodeFailure::InvalidUtf8));
}

#[test]
fn join_payload_fields() {
    let p = build_join_payload("123456", "Claw", "987654321");
    assert_eq!(p.game_pin, "123456");
    assert_eq!(p.name, "Claw");
    assert_eq!(p.id, "987654321");
    assert_eq!(p.version, 20);
}

#[test]
fn delay_with_jitter_values() {
    assert_eq!(delay_with_jitter(1000, 399), 1399);
    assert_eq!(delay_with_jitter(1000, -200), 800);
    assert_eq!(delay_with_jitter(100, -49), 51);
    assert_eq!(delay_with_jitter(100, -50), 50);
    assert_eq!(delay_with_jitter(0, -200), 50);
    assert_eq!(delay_with_jitter(0, 0), 50);
    // bases above i64::MAX wrap to negative values, as `as i64` does
    assert_eq!(delay_with_jitter(u64::MAX, 399), 398);
    assert_eq!(delay_with_jitter(u64::MAX, -200), 50);
    assert_eq!(delay_with_jitter((1u64 << 63) + 200, -200), 50);
}

#[test]
fn human_delay_stays_in_jitter_window() {
    for _ in 0..200 {
        let d = human_delay_ms(1500);
        assert!((1300..1900).contains(&d));
        let wrapped = human_delay_ms(u64::MAX);
        assert!((50..399).contains(&wrapped));
        let low = human_delay_ms(0);
        assert!((50..400).contains(&low));
    }
}

#[test]
fn token_from_draws_picks_alphabet_positions() {
    assert_eq!(token_from_draws(&vec![0, 25, 26, 51, 52, 61]), "azAZ09");
    assert_eq!(token_from_draws(&vec![]), "");
}
