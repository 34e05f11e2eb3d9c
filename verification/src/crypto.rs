//! Identifiers, tokens, Base64 text, the join payload, and human-like delays.

use vstd::prelude::*;
use vstd::utf8::{encode_utf8, decode_utf8, valid_utf8, encode_utf8_decode_utf8, encode_utf8_valid_utf8};
use base64::Engine;
use rand::Rng;
use crate::text::{decimal, all_digits, chars_of, push_char, push_str, decimal_string,
    lemma_decimal_digits, lemma_decimal_nine_digits};

verus! {

#[verifier::external_type_specification]
#[verifier::external_body]
pub struct ExThreadRng(rand::rngs::ThreadRng);

#[verifier::external_type_specification]
#[verifier::external_body]
pub struct ExDecodeError(base64::DecodeError);

/// `rand::thread_rng`: the generator of the current thread.
#[verifier::external_body]
fn thread_rng() -> rand::rngs::ThreadRng {
    rand::thread_rng()
}

/// `Rng::gen_range` on `u64`: a number in `low..high`.
#[verifier::external_body]
fn gen_range_u64(rng: &mut rand::rngs::ThreadRng, low: u64, high: u64) -> (r: u64)
    requires
        low < high,
    ensures
        low <= r < high,
{
    rng.gen_range(low..high)
}

/// `Rng::gen_range` on `usize`: a number in `low..high`.
#[verifier::external_body]
fn gen_range_usize(rng: &mut rand::rngs::ThreadRng, low: usize, high: usize) -> (r: usize)
    requires
        low < high,
    ensures
        low <= r < high,
{
    rng.gen_range(low..high)
}

/// `Rng::gen_range` on `i64`: a number in `low..high`.
#[verifier::external_body]
fn gen_range_i64(rng: &mut rand::rngs::ThreadRng, low: i64, high: i64) -> (r: i64)
    requires
        low < high,
    ensures
        low <= r < high,
{
    rng.gen_range(low..high)
}

/// The smallest player id (inclusive).
pub const PLAYER_ID_MIN: u64 = 100_000_000;

/// The bound of player ids (exclusive).
pub const PLAYER_ID_BOUND: u64 = 999_999_999;

/// A random player id in Blooket's format: the decimal notation of a number
/// from 100000000 up to, not including, 999999999; always nine digits.
pub fn random_player_id() -> (r: String)
    ensures
        exists|id: nat| PLAYER_ID_MIN <= id < PLAYER_ID_BOUND && r@ == decimal(id),
        r@.len() == 9,
        all_digits(r@),
{
    let mut rng = thread_rng();
    let id = gen_range_u64(&mut rng, PLAYER_ID_MIN, PLAYER_ID_BOUND);
    let s = decimal_string(id);
    proof {
        lemma_decimal_nine_digits(id as nat);
        lemma_decimal_digits(id as nat);
    }
    s
}

/// The characters that session tokens are made of.
pub const TOKEN_ALPHABET: &'static str = "abcdefghijklmnopqrstuvwxyzABCDEFGHIJKLMNOPQRSTUVWXYZ0123456789";

/// The token whose characters are the alphabet's characters at the drawn
/// positions.
pub open spec fn token_of_draws(draws: Seq<usize>) -> Seq<char> {
    Seq::new(draws.len(), |i: int| TOKEN_ALPHABET@[draws[i] as int])
}

/// Turns positions drawn in `TOKEN_ALPHABET` into a token.
pub fn token_from_draws(draws: &Vec<usize>) -> (r: String)
    requires
        forall|i: int| 0 <= i < draws@.len() ==> #[trigger] draws@[i] < 62,
    ensures
        r@ == token_of_draws(draws@),
{
    let chars = chars_of(TOKEN_ALPHABET);
    proof {
        reveal_strlit("abcdefghijklmnopqrstuvwxyzABCDEFGHIJKLMNOPQRSTUVWXYZ0123456789");
    }
    let mut s = String::new();
    let mut n: usize = 0;
    while n < draws.len()
        invariant
            chars@ == TOKEN_ALPHABET@,
            chars@.len() == 62,
            forall|i: int| 0 <= i < draws@.len() ==> #[trigger] draws@[i] < 62,
            n <= draws@.len(),
            s@ =~= token_of_draws(draws@).take(n as int),
        decreases draws@.len() - n,
    {
        push_char(&mut s, chars[draws[n]]);
        n = n + 1;
        assert(s@ =~= token_of_draws(draws@).take(n as int));
    }
    assert(token_of_draws(draws@).take(n as int) =~= token_of_draws(draws@));
    s
}

/// A random session token of `length` characters, each drawn from
/// `TOKEN_ALPHABET`.
pub fn random_session_token(length: usize) -> (r: String)
    ensures
        r@.len() == length,
        forall|i: int| 0 <= i < r@.len() ==> TOKEN_ALPHABET@.contains(#[trigger] r@[i]),
{
    let mut rng = thread_rng();
    let mut draws: Vec<usize> = Vec::new();
    let mut n: usize = 0;
    while n < length
        invariant
            n <= length,
            draws@.len() == n,
            forall|i: int| 0 <= i < draws@.len() ==> #[trigger] draws@[i] < 62,
        decreases length - n,
    {
        draws.push(gen_range_usize(&mut rng, 0, 62));
        n = n + 1;
    }
    let s = token_from_draws(&draws);
    proof {
        reveal_strlit("abcdefghijklmnopqrstuvwxyzABCDEFGHIJKLMNOPQRSTUVWXYZ0123456789");
        assert forall|i: int| 0 <= i < s@.len() implies TOKEN_ALPHABET@.contains(#[trigger] s@[i]) by {
            assert(draws@[i] < 62);
            assert(s@[i] == TOKEN_ALPHABET@[draws@[i] as int]);
        }
    }
    s
}

/// The Base64 symbol of a 6-bit value (standard alphabet).
pub open spec fn b64_symbol(v: int) -> char {
    if v < 26 {
        (65 + v) as char
    } else if v < 52 {
        (97 + (v - 26)) as char
    } else if v < 62 {
        (48 + (v - 52)) as char
    } else if v == 62 {
        '+'
    } else {
        '/'
    }
}

/// Standard Base64 (RFC 4648, alphabet `A-Z a-z 0-9 + /`, padded with `=`):
/// each group of three bytes becomes four symbols; a final group of one or
/// two bytes becomes two or three symbols and padding.
pub open spec fn base64_standard(b: Seq<u8>) -> Seq<char>
    decreases b.len(),
{
    if b.len() == 0 {
        Seq::empty()
    } else if b.len() == 1 {
        let n = b[0] * 65536;
        seq![b64_symbol(n / 262144), b64_symbol((n / 4096) % 64), '=', '=']
    } else if b.len() == 2 {
        let n = b[0] * 65536 + b[1] * 256;
        seq![b64_symbol(n / 262144), b64_symbol((n / 4096) % 64), b64_symbol((n / 64) % 64), '=']
    } else {
        let n = b[0] * 65536 + b[1] * 256 + b[2];
        seq![
            b64_symbol(n / 262144),
            b64_symbol((n / 4096) % 64),
            b64_symbol((n / 64) % 64),
            b64_symbol(n % 64),
        ] + base64_standard(b.skip(3))
    }
}

/// `base64::engine::general_purpose::STANDARD.encode`: the padded standard
/// Base64 text of the bytes.  It panics only where the length of the text
/// overflows `usize`, which a slice of at most `isize::MAX` bytes never does.
#[verifier::external_body]
fn base64_encode(bytes: &[u8]) -> (r: String)
    requires
        bytes@.len() <= isize::MAX,
    ensures
        r@ == base64_standard(bytes@),
{
    base64::engine::general_purpose::STANDARD.encode(bytes)
}

/// `base64::engine::general_purpose::STANDARD.decode`: with canonical padding
/// required and trailing bits refused, it accepts exactly the texts that are
/// the standard encoding of some bytes, and gives back those bytes.
#[verifier::external_body]
fn base64_decode(text: &str) -> (r: Result<Vec<u8>, base64::DecodeError>)
    ensures
        forall|b: Seq<u8>| #[trigger] base64_standard(b) == text@ <==> (r matches Ok(v) && v@ == b),
{
    base64::engine::general_purpose::STANDARD.decode(text)
}

/// `String::from_utf8`: the text whose UTF-8 encoding the bytes are, where
/// they are valid UTF-8; the error is dropped.
#[verifier::external_body]
fn string_from_utf8(bytes: Vec<u8>) -> (r: Option<String>)
    ensures
        r is Some <==> valid_utf8(bytes@),
        r matches Some(s) ==> s@ == decode_utf8(bytes@),
{
    String::from_utf8(bytes).ok()
}

/// Why a Base64 text could not be read back.
#[derive(Debug, Clone, Copy, PartialEq, Eq, Structural)]
pub enum DecodeFailure {
    /// Not the standard Base64 encoding of any bytes.
    InvalidBase64,
    /// The decoded bytes are not valid UTF-8.
    InvalidUtf8,
}

/// The Base64 text of a text's UTF-8 bytes.
pub open spec fn b64_text(text: Seq<char>) -> Seq<char> {
    base64_standard(encode_utf8(text))
}

/// `result` is what reading back the Base64 text `input` gives: the text
/// whose UTF-8 bytes it encodes, `InvalidUtf8` where those bytes are not
/// UTF-8, and `InvalidBase64` where it encodes no bytes.
pub open spec fn b64_reads_back(input: Seq<char>, result: Result<Seq<char>, DecodeFailure>) -> bool {
    &&& forall|b: Seq<u8>|
        #[trigger] base64_standard(b) == input ==> if valid_utf8(b) {
            result == Ok::<Seq<char>, DecodeFailure>(decode_utf8(b))
        } else {
            result == Err::<Seq<char>, DecodeFailure>(DecodeFailure::InvalidUtf8)
        }
    &&& (result == Err::<Seq<char>, DecodeFailure>(DecodeFailure::InvalidBase64)) <==> (forall|
        b: Seq<u8>,
    | #[trigger] base64_standard(b) != input)
}

/// The view of a decoding result.
pub open spec fn decode_view(r: Result<String, DecodeFailure>) -> Result<Seq<char>, DecodeFailure> {
    match r {
        Ok(s) => Ok(s@),
        Err(e) => Err(e),
    }
}

/// Base64-encodes a text's UTF-8 bytes.
pub fn b64_encode(input: &str) -> (r: String)
    requires
        encode_utf8(input@).len() <= isize::MAX,
    ensures
        r@ == b64_text(input@),
{
    base64_encode(input.as_bytes())
}

/// Reads back a Base64 text as UTF-8 text.
pub fn b64_decode(input: &str) -> (r: Result<String, DecodeFailure>)
    ensures
        b64_reads_back(input@, decode_view(r)),
{
    match base64_decode(input) {
        Err(_) => Err(DecodeFailure::InvalidBase64),
        Ok(bytes) => {
            let ghost b = bytes@;
            assert(base64_standard(b) == input@);
            match string_from_utf8(bytes) {
                Some(s) => Ok(s),
                None => Err(DecodeFailure::InvalidUtf8),
            }
        },
    }
}

/// Reading back the Base64 text of any text gives that text.
pub proof fn lemma_b64_roundtrip(text: Seq<char>, result: Result<Seq<char>, DecodeFailure>)
    requires
        b64_reads_back(b64_text(text), result),
    ensures
        result == Ok::<Seq<char>, DecodeFailure>(text),
{
    let b = encode_utf8(text);
    encode_utf8_valid_utf8(text);
    encode_utf8_decode_utf8(text);
    assert(base64_standard(b) == b64_text(text));
}

/// The payload that joins a game.
#[derive(Debug, Clone)]
pub struct JoinPayload {
    pub game_pin: String,
    pub name: String,
    pub id: String,
    pub version: u32,
}

/// The version of the client that the join payload announces.
pub const CLIENT_VERSION: u32 = 20;

/// Builds the join payload: the PIN, the display name, the player id, and
/// client version 20.
pub fn build_join_payload(pin: &str, name: &str, player_id: &str) -> (r: JoinPayload)
    ensures
        r.game_pin@ == pin@,
        r.name@ == name@,
        r.id@ == player_id@,
        r.version == CLIENT_VERSION,
{
    let mut game_pin = String::new();
    push_str(&mut game_pin, pin);
    let mut n = String::new();
    push_str(&mut n, name);
    let mut id = String::new();
    push_str(&mut id, player_id);
    JoinPayload { game_pin, name: n, id, version: CLIENT_VERSION }
}

/// The least delay ever waited, in milliseconds.
pub const MIN_DELAY_MS: u64 = 50;

/// The base delay read as a signed 64-bit number (`base as i64`): bases
/// above `i64::MAX` wrap to negative values.
pub open spec fn signed_base(base_ms: u64) -> int {
    if base_ms <= i64::MAX {
        base_ms as int
    } else {
        base_ms - 0x1_0000_0000_0000_0000
    }
}

/// The signed base moved by a jitter, and never under 50 ms.
pub open spec fn jittered_delay(base_ms: u64, jitter: int) -> int {
    if signed_base(base_ms) + jitter > MIN_DELAY_MS {
        signed_base(base_ms) + jitter
    } else {
        MIN_DELAY_MS as int
    }
}

/// The sum of the signed base and a jitter fits `i64`.
pub open spec fn jitter_fits(base_ms: u64, jitter: int) -> bool {
    i64::MIN <= signed_base(base_ms) + jitter <= i64::MAX
}

/// A base delay for which every jitter from -200 up to, not including, 400
/// fits: at most `i64::MAX - 399`, or at least `2^63 + 200`.
pub open spec fn delay_base_ok(base_ms: u64) -> bool {
    base_ms <= i64::MAX - 399 || base_ms >= 0x8000_0000_0000_00c8
}

/// The delay for a given jitter: `max(base as i64 + jitter, 50)`.
pub fn delay_with_jitter(base_ms: u64, jitter: i64) -> (r: u64)
    requires
        jitter_fits(base_ms, jitter as int),
    ensures
        r == jittered_delay(base_ms, jitter as int),
{
    let signed: i64 = if base_ms <= 0x7fff_ffff_ffff_ffffu64 {
        base_ms as i64
    } else {
        ((base_ms - 0x8000_0000_0000_0000u64) as i64) + i64::MIN
    };
    let result: i64 = signed + jitter;
    if result > 50 {
        result as u64
    } else {
        MIN_DELAY_MS
    }
}

/// A human-like delay: the base delay with a random jitter from -200 ms up
/// to, not including, +400 ms, and never under 50 ms.
pub fn human_delay_ms(base_ms: u64) -> (r: u64)
    requires
        delay_base_ok(base_ms),
    ensures
        exists|j: int| -200 <= j < 400 && r == jittered_delay(base_ms, j),
        MIN_DELAY_MS <= r,
{
    let mut rng = thread_rng();
    let jitter = gen_range_i64(&mut rng, -200, 400);
    delay_with_jitter(base_ms, jitter)
}

} // verus!
