//! The cookie codec: a payload followed by its signature.
//!
//! A signed value is the payload's bytes followed by sixty-four lower-case
//! hexadecimal digits, the HMAC-SHA256 tag of the payload under the signing
//! key. Nothing is encrypted: the payload is readable, and the signature only
//! shows that the holder of the key produced it.

use crypto::hmac::Hmac;
use crypto::mac::Mac;
use crypto::sha2::Sha256;
use vstd::prelude::*;
use vstd::slice::{slice_subrange, slice_to_vec};
use vstd::string::*;
use vstd::utf8::*;

verus! {

/// Length of a signing key, in bytes.
pub const KEY_LEN: usize = 32;

/// Length of a signature, in bytes: two hexadecimal digits for each byte of the tag.
pub const SIGNATURE_LEN: usize = 64;

/// Length of the longest payload that can be signed, in bytes. SHA-256 counts
/// the bits it is fed in sixty-four bits, and HMAC feeds it one block of
/// sixty-four bytes before the message.
pub const MAX_PAYLOAD_LEN: u64 = 0x1fff_ffff_ffff_ffbf;

/// The HMAC-SHA256 tag of `message` under `key`.
pub uninterp spec fn hmac_sha256(key: Seq<u8>, message: Seq<u8>) -> [u8; 32];

/// Computes an HMAC-SHA256 tag with `Hmac` and `Sha256` of the `crypto`
/// crate: `Hmac::new`, `input`, `raw_result`. The tag depends on the key and
/// the message alone, and is the thirty-two bytes that `hmac_sha256` names. A
/// key of at most one block is used as it is. A message that is too long for
/// SHA-256 to count makes the crate panic, and is left out.
#[verifier::external_body]
fn hmac_tag(key: &[u8], message: &[u8]) -> (tag: [u8; 32])
    requires
        key@.len() <= 64,
        message@.len() <= MAX_PAYLOAD_LEN,
    ensures
        tag == hmac_sha256(key@, message@),
{
    let mut mac = Hmac::new(Sha256::new(), key);
    mac.input(message);
    let mut tag = [0u8; 32];
    mac.raw_result(&mut tag);
    tag
}

/// The ASCII code of the lower-case hexadecimal digit for a value below sixteen.
pub open spec fn hex_digit(nibble: int) -> u8 {
    if nibble < 10 {
        (48 + nibble) as u8
    } else {
        (87 + nibble) as u8
    }
}

/// The lower-case hexadecimal spelling of `bytes`, two digits a byte, high digit first.
pub open spec fn hex(bytes: Seq<u8>) -> Seq<u8> {
    Seq::new(
        2 * bytes.len(),
        |i: int|
            if i % 2 == 0 {
                hex_digit(bytes[i / 2] as int / 16)
            } else {
                hex_digit(bytes[i / 2] as int % 16)
            },
    )
}

/// The signature of `payload` under `key`.
pub open spec fn signature(key: Seq<u8>, payload: Seq<u8>) -> Seq<u8> {
    hex(hmac_sha256(key, payload)@)
}

/// The signed value of `payload` under `key`: the payload, then its signature.
pub open spec fn signed(key: Seq<u8>, payload: Seq<u8>) -> Seq<u8> {
    payload + signature(key, payload)
}

/// The part of a received value that stands before the signature.
pub open spec fn payload_part(wire: Seq<u8>) -> Seq<u8> {
    wire.take(wire.len() - SIGNATURE_LEN as int)
}

/// The last sixty-four bytes of a received value.
pub open spec fn signature_part(wire: Seq<u8>) -> Seq<u8> {
    wire.skip(wire.len() - SIGNATURE_LEN as int)
}

/// What verification yields for a received value: the payload where the value
/// is long enough to hold a signature, what stands before its last sixty-four
/// bytes is short enough to be signed, and those bytes are its signature; and
/// nothing otherwise.
pub open spec fn verified(key: Seq<u8>, wire: Seq<u8>) -> Option<Seq<u8>> {
    if wire.len() >= SIGNATURE_LEN as int && payload_part(wire).len() <= MAX_PAYLOAD_LEN
        && signature_part(wire) == signature(key, payload_part(wire)) {
        Some(payload_part(wire))
    } else {
        None
    }
}

/// `tampered` has the length of `genuine` and differs from it at index `at` and nowhere else.
pub open spec fn differs_only_at(genuine: Seq<u8>, tampered: Seq<u8>, at: int) -> bool {
    &&& tampered.len() == genuine.len()
    &&& 0 <= at < genuine.len()
    &&& tampered[at] != genuine[at]
    &&& forall|i: int| 0 <= i < genuine.len() && i != at ==> tampered[i] == genuine[i]
}

/// The characters of an ASCII byte string.
pub open spec fn ascii_text(bytes: Seq<u8>) -> Seq<char> {
    Seq::new(bytes.len(), |i: int| bytes[i] as char)
}

/// The signed value of a payload that is text: the text, then its signature's
/// digits. The signature is that of the text's UTF-8 encoding.
pub open spec fn signed_text(key: Seq<u8>, payload: Seq<char>) -> Seq<char> {
    payload + ascii_text(signature(key, encode_utf8(payload)))
}

/// What verification yields for a received value that is text: its UTF-8
/// encoding is verified, and the payload read back as text.
pub open spec fn verified_text(key: Seq<u8>, wire: Seq<char>) -> Option<Seq<char>> {
    match verified(key, encode_utf8(wire)) {
        Some(payload) => Some(decode_utf8(payload)),
        None => None,
    }
}

/// Why a key was refused.
#[derive(Debug, Clone, Copy, PartialEq, Eq, Structural)]
pub enum KeyError {
    /// The key does not have exactly `KEY_LEN` bytes.
    WrongLength,
}

/// A signing key: exactly `KEY_LEN` bytes.
pub struct SigningKey {
    bytes: Vec<u8>,
}

impl View for SigningKey {
    type V = Seq<u8>;

    closed spec fn view(&self) -> Seq<u8> {
        self.bytes@
    }
}

impl SigningKey {
    #[verifier::type_invariant]
    spec fn well_formed(&self) -> bool {
        self.bytes@.len() == KEY_LEN
    }

    /// Takes `bytes` as a signing key, or refuses them if there are not exactly `KEY_LEN`.
    pub fn new(bytes: Vec<u8>) -> (r: Result<SigningKey, KeyError>)
        ensures
            bytes@.len() == KEY_LEN ==> (r matches Ok(key) && key@ == bytes@),
            bytes@.len() != KEY_LEN ==> r == Err::<SigningKey, KeyError>(KeyError::WrongLength),
    {
        if bytes.len() == KEY_LEN {
            Ok(SigningKey { bytes })
        } else {
            Err(KeyError::WrongLength)
        }
    }

    /// The key's bytes.
    pub fn as_bytes(&self) -> (r: &[u8])
        ensures
            r@ == self@,
            r@.len() == KEY_LEN,
    {
        proof {
            use_type_invariant(self);
        }
        self.bytes.as_slice()
    }

    /// A second copy of the key.
    pub fn duplicate(&self) -> (r: SigningKey)
        ensures
            r@ == self@,
    {
        proof {
            use_type_invariant(self);
        }
        SigningKey { bytes: slice_to_vec(self.bytes.as_slice()) }
    }
}

/// The hexadecimal digit for a value below sixteen.
fn hex_digit_of(nibble: u8) -> (digit: u8)
    requires
        nibble < 16,
    ensures
        digit == hex_digit(nibble as int),
{
    if nibble < 10 {
        48 + nibble
    } else {
        87 + nibble
    }
}

/// Spells `bytes` in lower-case hexadecimal.
pub fn hex_encode(bytes: &[u8]) -> (digits: Vec<u8>)
    ensures
        digits@ == hex(bytes@),
{
    let mut digits: Vec<u8> = Vec::new();
    let mut i: usize = 0;
    while i < bytes.len()
        invariant
            i <= bytes.len(),
            digits@ == hex(bytes@.take(i as int)),
        decreases bytes.len() - i,
    {
        let byte = bytes[i];
        digits.push(hex_digit_of(byte / 16));
        digits.push(hex_digit_of(byte % 16));
        i += 1;
        assert(digits@ =~= hex(bytes@.take(i as int)));
    }
    assert(bytes@.take(i as int) =~= bytes@);
    digits
}

/// Whether two byte strings are the same. Strings of one length are compared
/// byte by byte to the end whatever the outcome, so that the time taken does
/// not show where they differ.
pub fn constant_time_eq(a: &[u8], b: &[u8]) -> (same: bool)
    ensures
        same == (a@ == b@),
{
    if a.len() != b.len() {
        return false;
    }
    let mut folded: u8 = 0;
    let mut i: usize = 0;
    while i < a.len()
        invariant
            i <= a.len(),
            a.len() == b.len(),
            folded == 0 <==> (forall|j: int| 0 <= j < i ==> a[j] == b[j]),
        decreases a.len() - i,
    {
        let x = a[i];
        let y = b[i];
        let before = folded;
        folded = folded | (x ^ y);
        assert((before | (x ^ y)) == 0 <==> (before == 0 && x == y)) by (bit_vector);
        i += 1;
    }
    proof {
        if folded == 0 {
            assert(a@ =~= b@);
        }
    }
    folded == 0
}

/// Signs `payload` under `key`.
pub fn sign(payload: &[u8], key: &SigningKey) -> (wire: Vec<u8>)
    requires
        payload@.len() <= MAX_PAYLOAD_LEN,
    ensures
        wire@ == signed(key@, payload@),
{
    let tag = hmac_tag(key.as_bytes(), payload);
    let mut wire = slice_to_vec(payload);
    let mut digits = hex_encode(tag.as_slice());
    wire.append(&mut digits);
    wire
}

/// Whether a received value is long enough to hold a signature and ends in
/// the signature of what stands before it.
fn signature_matches(wire: &[u8], key: &SigningKey) -> (ok: bool)
    ensures
        ok == verified(key@, wire@) is Some,
{
    if wire.len() < SIGNATURE_LEN {
        return false;
    }
    let split = wire.len() - SIGNATURE_LEN;
    if split as u64 > MAX_PAYLOAD_LEN {
        return false;
    }
    let payload = slice_subrange(wire, 0, split);
    let received = slice_subrange(wire, split, wire.len());
    let tag = hmac_tag(key.as_bytes(), payload);
    let expected = hex_encode(tag.as_slice());
    constant_time_eq(received, expected.as_slice())
}

/// Verifies a received value under `key`: the payload if the value ends in the
/// payload's signature, and nothing if it is too short or the signature does
/// not match. A value that fails is treated as no value at all.
pub fn verify(wire: &[u8], key: &SigningKey) -> (r: Option<Vec<u8>>)
    ensures
        r is Some == verified(key@, wire@) is Some,
        r matches Some(payload) ==> verified(key@, wire@) == Some(payload@),
{
    if signature_matches(wire, key) {
        Some(slice_to_vec(slice_subrange(wire, 0, wire.len() - SIGNATURE_LEN)))
    } else {
        None
    }
}

/// The one-character string of the hexadecimal digit for a value below sixteen.
fn hex_digit_str(nibble: u8) -> (digit: &'static str)
    requires
        nibble < 16,
    ensures
        digit@ == seq![hex_digit(nibble as int) as char],
{
    proof {
        reveal_strlit("0");
        reveal_strlit("1");
        reveal_strlit("2");
        reveal_strlit("3");
        reveal_strlit("4");
        reveal_strlit("5");
        reveal_strlit("6");
        reveal_strlit("7");
        reveal_strlit("8");
        reveal_strlit("9");
        reveal_strlit("a");
        reveal_strlit("b");
        reveal_strlit("c");
        reveal_strlit("d");
        reveal_strlit("e");
        reveal_strlit("f");
    }
    let digit = match nibble {
        0 => "0",
        1 => "1",
        2 => "2",
        3 => "3",
        4 => "4",
        5 => "5",
        6 => "6",
        7 => "7",
        8 => "8",
        9 => "9",
        10 => "a",
        11 => "b",
        12 => "c",
        13 => "d",
        14 => "e",
        _ => "f",
    };
    assert(digit@ =~= seq![hex_digit(nibble as int) as char]);
    digit
}

/// Signs a payload that is text, and gives the signed value as text.
pub fn sign_text(payload: &str, key: &SigningKey) -> (wire: String)
    requires
        encode_utf8(payload@).len() <= MAX_PAYLOAD_LEN,
    ensures
        wire@ == signed_text(key@, payload@),
{
    let tag = hmac_tag(key.as_bytes(), payload.as_bytes());
    let mut wire = payload.to_owned();
    let mut i: usize = 0;
    while i < 32
        invariant
            i <= 32,
            wire@ == payload@ + ascii_text(hex(tag@.take(i as int))),
        decreases 32 - i,
    {
        let byte = tag[i];
        wire.append(hex_digit_str(byte / 16));
        wire.append(hex_digit_str(byte % 16));
        i += 1;
        assert(wire@ =~= payload@ + ascii_text(hex(tag@.take(i as int))));
    }
    assert(tag@.take(32) =~= tag@);
    wire
}

/// Verifies a received value that is text, and gives the payload as text.
pub fn verify_text(wire: &str, key: &SigningKey) -> (r: Option<String>)
    ensures
        r is Some == verified_text(key@, wire@) is Some,
        r matches Some(payload) ==> verified_text(key@, wire@) == Some(payload@),
{
    let bytes = wire.as_bytes();
    if !signature_matches(bytes, key) {
        return None;
    }
    let split = bytes.len() - SIGNATURE_LEN;
    proof {
        lemma_payload_ends_at_char_boundary(key@, wire@);
    }
    let (payload, _) = wire.split_at(split);
    proof {
        assert(payload.spec_bytes() =~= payload_part(bytes@));
        encode_utf8_decode_utf8(payload@);
    }
    Some(payload.to_owned())
}

/// A signature has `SIGNATURE_LEN` bytes, each of them a hexadecimal digit.
pub proof fn lemma_signature_shape(key: Seq<u8>, payload: Seq<u8>)
    ensures
        signature(key, payload).len() == SIGNATURE_LEN,
        forall|i: int|
            0 <= i < SIGNATURE_LEN ==> 48 <= #[trigger] signature(key, payload)[i] <= 102,
{
    broadcast use vstd::array::group_array_axioms;

}

/// Two byte strings with the same hexadecimal spelling are the same string.
pub proof fn lemma_hex_injective(a: Seq<u8>, b: Seq<u8>)
    requires
        hex(a) == hex(b),
    ensures
        a == b,
{
    assert(a.len() == b.len()) by {
        assert(hex(a).len() == 2 * a.len());
        assert(hex(b).len() == 2 * b.len());
    }
    assert forall|i: int| 0 <= i < a.len() implies a[i] == b[i] by {
        assert(hex(a)[2 * i] == hex(b)[2 * i]);
        assert(hex(a)[2 * i + 1] == hex(b)[2 * i + 1]);
        assert(hex(a)[2 * i] == hex_digit(a[i] as int / 16));
        assert(hex(a)[2 * i + 1] == hex_digit(a[i] as int % 16));
        assert(hex(b)[2 * i] == hex_digit(b[i] as int / 16));
        assert(hex(b)[2 * i + 1] == hex_digit(b[i] as int % 16));
    }
    assert(a =~= b);
}

/// In text that verifies, the payload ends where a character ends.
pub proof fn lemma_payload_ends_at_char_boundary(key: Seq<u8>, wire: Seq<char>)
    requires
        verified(key, encode_utf8(wire)) is Some,
    ensures
        is_char_boundary(encode_utf8(wire), encode_utf8(wire).len() - SIGNATURE_LEN),
        valid_utf8(payload_part(encode_utf8(wire))),
{
    let bytes = encode_utf8(wire);
    let split = bytes.len() - SIGNATURE_LEN;
    encode_utf8_valid_utf8(wire);
    lemma_signature_shape(key, payload_part(bytes));
    assert(bytes[split] == signature_part(bytes)[0]);
    is_char_boundary_iff_not_is_continuation_byte(bytes, split);
    valid_utf8_split(bytes, split);
    assert(bytes.subrange(0, split) =~= payload_part(bytes));
}

/// The UTF-8 encoding of a signed text is the signed value of the text's encoding.
pub proof fn lemma_signed_text_encoding(key: Seq<u8>, payload: Seq<char>)
    ensures
        encode_utf8(signed_text(key, payload)) == signed(key, encode_utf8(payload)),
{
    let bytes = encode_utf8(payload);
    let digits = signature(key, bytes);
    let wire = signed(key, bytes);
    lemma_signature_shape(key, bytes);
    assert(is_ascii_chars(ascii_text(digits)));
    is_ascii_chars_encode_utf8(ascii_text(digits));
    assert(encode_utf8(ascii_text(digits)) =~= digits);
    encode_utf8_valid_utf8(payload);
    encode_utf8_valid_utf8(ascii_text(digits));
    valid_utf8_concat(bytes, digits);
    let split = bytes.len() as int;
    assert(wire[split] == digits[0]);
    is_char_boundary_iff_not_is_continuation_byte(wire, split);
    decode_utf8_split(wire, split);
    assert(wire.subrange(0, split) =~= bytes);
    assert(wire.subrange(split, wire.len() as int) =~= digits);
    encode_utf8_decode_utf8(payload);
    encode_utf8_decode_utf8(ascii_text(digits));
    assert(decode_utf8(wire) =~= signed_text(key, payload));
    decode_utf8_encode_utf8(wire);
}

/// Round trip: verifying what was signed, under the same key, gives the
/// payload back. The payload is one that can be signed.
pub proof fn lemma_round_trip(key: Seq<u8>, payload: Seq<u8>)
    requires
        payload.len() <= MAX_PAYLOAD_LEN,
    ensures
        verified(key, signed(key, payload)) == Some(payload),
{
    lemma_signature_shape(key, payload);
    let wire = signed(key, payload);
    assert(payload_part(wire) =~= payload);
    assert(signature_part(wire) =~= signature(key, payload));
}

/// Round trip for text: verifying a signed text, under the same key, gives
/// the text back. The text is one that can be signed.
pub proof fn lemma_text_round_trip(key: Seq<u8>, payload: Seq<char>)
    requires
        encode_utf8(payload).len() <= MAX_PAYLOAD_LEN,
    ensures
        verified_text(key, signed_text(key, payload)) == Some(payload),
{
    lemma_signed_text_encoding(key, payload);
    lemma_round_trip(key, encode_utf8(payload));
    encode_utf8_decode_utf8(payload);
}

/// Tamper rejection: a signed value with one byte changed does not verify.
///
/// One case is left out. Where the byte changed lies in the payload, the
/// changed payload must not have the tag of the signed one: two payloads with
/// one tag would be a collision of HMAC-SHA256, which nothing here can rule
/// out and no one is known to have found. A change inside the signature is
/// rejected without any such condition.
pub proof fn lemma_tamper_rejected(key: Seq<u8>, payload: Seq<u8>, tampered: Seq<u8>, at: int)
    requires
        differs_only_at(signed(key, payload), tampered, at),
        at < payload.len() ==> hmac_sha256(key, payload_part(tampered)) != hmac_sha256(
            key,
            payload,
        ),
    ensures
        verified(key, tampered) is None,
{
    broadcast use vstd::array::group_array_axioms;

    lemma_signature_shape(key, payload);
    let wire = signed(key, payload);
    let n = payload.len() as int;
    assert(payload_part(wire) =~= payload);
    assert(signature_part(wire) =~= signature(key, payload));
    if at >= n {
        assert(payload_part(tampered) =~= payload);
        assert(signature_part(tampered)[at - n] != signature_part(wire)[at - n]);
    } else {
        assert(signature_part(tampered) =~= signature(key, payload));
        if verified(key, tampered) is Some {
            let other = hmac_sha256(key, payload_part(tampered));
            let own = hmac_sha256(key, payload);
            lemma_hex_injective(other@, own@);
            assert(other =~= own);
        }
    }
}

/// What becomes of a signed value with one byte changed, in every case: it
/// verifies only if the byte lies in the payload and the changed payload has
/// the tag of the signed one, and then it yields the changed payload.
pub proof fn lemma_tamper_outcome(key: Seq<u8>, payload: Seq<u8>, tampered: Seq<u8>, at: int)
    requires
        payload.len() <= MAX_PAYLOAD_LEN,
        differs_only_at(signed(key, payload), tampered, at),
    ensures
        verified(key, tampered) is Some <==> at < payload.len() && hmac_sha256(
            key,
            payload_part(tampered),
        ) == hmac_sha256(key, payload),
        verified(key, tampered) is Some ==> verified(key, tampered) == Some(payload_part(tampered))
            && payload_part(tampered) != payload,
{
    lemma_signature_shape(key, payload);
    let wire = signed(key, payload);
    assert(payload_part(wire) =~= payload);
    if at < payload.len() && hmac_sha256(key, payload_part(tampered)) == hmac_sha256(key, payload) {
        assert(signature_part(tampered) =~= signature(key, payload));
        assert(payload_part(tampered)[at] != payload[at]);
    } else {
        lemma_tamper_rejected(key, payload, tampered, at);
    }
}

} // verus!
