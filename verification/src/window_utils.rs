//! Transport of native window handles (used to embed plugin editors) as
//! text: the handle's address, in little-endian bytes of the machine's
//! pointer width, encoded in standard base64.

use base64::Engine;
use vstd::prelude::*;

verus! {

#[verifier::external_type_specification]
#[verifier::external_body]
pub struct ExDecodeError(base64::DecodeError);

/// The standard base64 text of some bytes (RFC 4648 alphabet, with padding).
pub uninterp spec fn base64_encoding(bytes: Seq<u8>) -> Seq<char>;

/// The bytes a standard base64 text stands for; none for a text that is not
/// canonical standard base64.
pub uninterp spec fn base64_decoding(text: Seq<char>) -> Option<Seq<u8>>;

/// Wraps `base64::Engine::encode` of the standard engine. Decoding the text
/// gives the bytes back (the encoding is a round trip). The engine panics
/// when the length of the text would not fit in `usize`.
#[verifier::external_body]
fn base64_encode(bytes: &Vec<u8>) -> (r: String)
    requires
        (bytes@.len() / 3) * 4 + 4 <= usize::MAX,
    ensures
        r@ == base64_encoding(bytes@),
        base64_decoding(r@) == Some(bytes@),
{
    base64::prelude::BASE64_STANDARD.encode(bytes)
}

/// Wraps `base64::Engine::decode` of the standard engine.
#[verifier::external_body]
fn base64_decode(text: &str) -> (r: Result<Vec<u8>, base64::DecodeError>)
    ensures
        match r {
            Ok(b) => base64_decoding(text@) == Some(b@),
            Err(_) => base64_decoding(text@) is None,
        },
{
    base64::prelude::BASE64_STANDARD.decode(text)
}

/// The text of a decoding error (`Display` of `base64::DecodeError`, which
/// names the offending position or byte); nothing is stated of it.
#[verifier::external_body]
fn decode_error_text(e: &base64::DecodeError) -> String {
    format!("{}", e)
}

/// `256` to the power `n`.
pub open spec fn pow256(n: nat) -> nat
    decreases n,
{
    if n == 0 {
        1
    } else {
        256 * pow256((n - 1) as nat)
    }
}

/// The `n` lowest bytes of `v`, least significant first.
pub open spec fn le_bytes(v: nat, n: nat) -> Seq<u8>
    decreases n,
{
    if n == 0 {
        Seq::empty()
    } else {
        seq![(v % 256) as u8] + le_bytes(v / 256, (n - 1) as nat)
    }
}

/// The number whose little-endian bytes are `b`.
pub open spec fn le_value(b: Seq<u8>) -> nat
    decreases b.len(),
{
    if b.len() == 0 {
        0
    } else {
        (b[0] as nat) + 256 * le_value(b.drop_first())
    }
}

/// The number of bytes of an address on this machine.
pub open spec fn word_bytes() -> nat {
    (usize::BITS / 8) as nat
}

/// The text that stands for a window handle.
pub open spec fn encoded_handle(handle: usize) -> Seq<char> {
    base64_encoding(le_bytes(handle as nat, word_bytes()))
}

/// The window handle a text stands for, if it decodes to exactly one address.
pub open spec fn decoded_handle(text: Seq<char>) -> Option<usize> {
    match base64_decoding(text) {
        Some(b) => if b.len() == word_bytes() {
            Some(le_value(b) as usize)
        } else {
            None
        },
        None => None,
    }
}

/// Reading back the bytes of a number gives the number, modulo the range
/// of the bytes.
pub proof fn lemma_le_roundtrip(v: nat, n: nat)
    ensures
        le_bytes(v, n).len() == n,
        le_value(le_bytes(v, n)) == v % pow256(n),
    decreases n,
{
    if n > 0 {
        lemma_le_roundtrip(v / 256, (n - 1) as nat);
        let b = le_bytes(v, n);
        assert(b.drop_first() =~= le_bytes(v / 256, (n - 1) as nat));
        let p = pow256((n - 1) as nat);
        assert(p > 0) by {
            lemma_pow256_positive((n - 1) as nat);
        }
        assert((v % 256) + 256 * ((v / 256) % p) == v % (256 * p)) by (nonlinear_arith)
            requires
                p > 0,
        {
            vstd::arithmetic::div_mod::lemma_breakdown(v as int, 256, p as int);
        }
    }
}

/// Powers of 256 are positive.
pub proof fn lemma_pow256_positive(n: nat)
    ensures
        pow256(n) > 0,
    decreases n,
{
    if n > 0 {
        lemma_pow256_positive((n - 1) as nat);
    }
}

/// The range of the bytes of a word is the range of addresses.
proof fn lemma_word_range()
    ensures
        pow256(word_bytes()) == usize::MAX + 1,
{
    reveal_with_fuel(pow256, 9);
    assert(pow256(4) == 0x1_0000_0000);
    assert(pow256(8) == 0x1_0000_0000_0000_0000);
}

/// Every address fits in the bytes of a word.
pub proof fn lemma_address_fits(h: usize)
    ensures
        (h as nat) < pow256(word_bytes()),
{
    lemma_word_range();
}

/// A window handle travels unchanged: the text that encoding a handle
/// gives decodes to that handle.
pub proof fn law_window_handle_roundtrip(handle: usize, text: Seq<char>)
    requires
        base64_decoding(text) == Some(le_bytes(handle as nat, word_bytes())),
    ensures
        decoded_handle(text) == Some(handle),
{
    lemma_le_roundtrip(handle as nat, word_bytes());
    lemma_address_fits(handle);
    assert((handle as nat) % pow256(word_bytes()) == handle as nat) by {
        vstd::arithmetic::div_mod::lemma_small_mod(handle as nat, pow256(word_bytes()));
    }
}

/// Encodes a window handle (the address of the native window) as text.
pub fn encode_window_handle(handle: usize) -> (r: Result<String, String>)
    ensures
        r matches Ok(s) && s@ == encoded_handle(handle) && base64_decoding(s@) == Some(
            le_bytes(handle as nat, word_bytes()),
        ),
{
    let width: usize = (usize::BITS / 8) as usize;
    let mut bytes: Vec<u8> = Vec::new();
    let mut rest: usize = handle;
    let mut i: usize = 0;
    while i < width
        invariant
            width == word_bytes(),
            width <= 8,
            i <= width,
            bytes@.len() == i,
            bytes@ + le_bytes(rest as nat, (width - i) as nat) == le_bytes(handle as nat, width as nat),
        decreases width - i,
    {
        let ghost before = bytes@;
        let ghost old_rest = rest;
        proof {
            let n = (width - i) as nat;
            assert(le_bytes(old_rest as nat, n) =~= seq![(old_rest % 256) as u8] + le_bytes(
                (old_rest / 256) as nat,
                (n - 1) as nat,
            ));
        }
        bytes.push((rest % 256) as u8);
        rest = rest / 256;
        i = i + 1;
        assert(bytes@ + le_bytes(rest as nat, (width - i) as nat) =~= before + le_bytes(
            old_rest as nat,
            (width - (i - 1)) as nat,
        ));
    }
    proof {
        assert(le_bytes(rest as nat, 0) =~= Seq::<u8>::empty());
    }
    assert(bytes@ =~= le_bytes(handle as nat, width as nat));
    Ok(base64_encode(&bytes))
}

/// Decodes a window handle from its text; refused when the text is not
/// base64, or does not hold exactly the bytes of one address.
pub fn decode_window_handle(encoded: &str) -> (r: Result<usize, String>)
    ensures
        match r {
            Ok(h) => decoded_handle(encoded@) == Some(h),
            Err(e) => decoded_handle(encoded@) is None && (base64_decoding(encoded@) is Some ==> e@
                == "Invalid window handle size"@),
        },
{
    let decoded = match base64_decode(encoded) {
        Ok(b) => b,
        Err(e) => {
            return Err(
                String::from_str("Failed to decode window handle: ").concat(
                    decode_error_text(&e).as_str(),
                ),
            );
        },
    };
    let width: usize = (usize::BITS / 8) as usize;
    if decoded.len() != width {
        return Err(String::from_str("Invalid window handle size"));
    }
    let mut value: usize = 0;
    let mut i: usize = width;
    while i > 0
        invariant
            width == word_bytes(),
            width <= 8,
            decoded@.len() == width,
            i <= width,
            value as nat == le_value(decoded@.skip(i as int)),
            le_value(decoded@.skip(i as int)) < pow256((width - i) as nat),
        decreases i,
    {
        proof {
            let tail = decoded@.skip(i - 1);
            assert(tail.drop_first() =~= decoded@.skip(i as int));
            assert(tail[0] == decoded@[i - 1]);
            lemma_address_fits(value);
            lemma_pow256_positive((width - i) as nat);
            assert(le_value(tail) == decoded@[i - 1] + 256 * le_value(decoded@.skip(i as int)));
            assert(le_value(tail) < pow256((width - i + 1) as nat)) by (nonlinear_arith)
                requires
                    le_value(tail) == decoded@[i - 1] + 256 * le_value(decoded@.skip(i as int)),
                    le_value(decoded@.skip(i as int)) < pow256((width - i) as nat),
                    pow256((width - i + 1) as nat) == 256 * pow256((width - i) as nat),
                    decoded@[i - 1] < 256,
            ;
            lemma_value_fits(le_value(tail), (width - i + 1) as nat);
        }
        value = value * 256 + decoded[i - 1] as usize;
        i = i - 1;
    }
    assert(decoded@.skip(0) =~= decoded@);
    Ok(value)
}

/// A number below `256^n`, for `n` at most a word, is an address.
proof fn lemma_value_fits(v: nat, n: nat)
    requires
        v < pow256(n),
        n <= word_bytes(),
    ensures
        v <= usize::MAX,
{
    lemma_pow256_monotone(n, word_bytes());
    lemma_word_range();
}

/// Powers of 256 grow with the exponent.
proof fn lemma_pow256_monotone(a: nat, b: nat)
    requires
        a <= b,
    ensures
        pow256(a) <= pow256(b),
    decreases b,
{
    if a < b {
        lemma_pow256_monotone(a, (b - 1) as nat);
        lemma_pow256_positive((b - 1) as nat);
    }
}

} // verus!
