//! Hashing, message authentication and random identifiers offered to
//! extension scripts, with digests rendered as lowercase hexadecimal.

use vstd::prelude::*;
use vstd::utf8::encode_utf8;
use md5::Digest;
use hmac::Mac;
use crate::error::{HagitoriError, Result};
use crate::text::{push_char, push_str};

verus! {

// ─── hexadecimal ──────────────────────────────────────────────────────────

/// Lowercase hexadecimal digit of `n` (below 16).
pub open spec fn hex_digit(n: u8) -> char {
    if n < 10 {
        ((n + 48) as u8) as char
    } else {
        ((n + 87) as u8) as char
    }
}

/// Two lowercase hexadecimal digits of one byte.
pub open spec fn hex_byte(b: u8) -> Seq<char> {
    seq![hex_digit(b / 16), hex_digit(b % 16)]
}

/// Lowercase hexadecimal text of a byte string, two digits per byte.
pub open spec fn hex_lower(bytes: Seq<u8>) -> Seq<char>
    decreases bytes.len(),
{
    if bytes.len() == 0 {
        Seq::empty()
    } else {
        hex_lower(bytes.drop_last()) + hex_byte(bytes.last())
    }
}

fn hex_digit_exec(n: u8) -> (c: char)
    requires
        n < 16,
    ensures
        c == hex_digit(n),
{
    if n < 10 {
        (n + 48) as char
    } else {
        (n + 87) as char
    }
}

/// Appends the lowercase hexadecimal text of `bytes[from..to]`.
fn push_hex(r: &mut String, bytes: &Vec<u8>, from: usize, to: usize)
    requires
        from <= to <= bytes.len(),
    ensures
        final(r)@ == old(r)@ + hex_lower(bytes@.subrange(from as int, to as int)),
{
    let ghost start = r@;
    let mut i: usize = from;
    assert(bytes@.subrange(from as int, from as int) =~= Seq::<u8>::empty());
    while i < to
        invariant
            from <= i <= to <= bytes.len(),
            r@ == start + hex_lower(bytes@.subrange(from as int, i as int)),
        decreases to - i,
    {
        let b = bytes[i];
        push_char(r, hex_digit_exec(b / 16));
        push_char(r, hex_digit_exec(b % 16));
        proof {
            assert(bytes@.subrange(from as int, i + 1).drop_last() =~= bytes@.subrange(from as int, i as int));
        }
        i = i + 1;
    }
}

/// Lowercase hexadecimal text of `bytes`.
pub fn hex_text(bytes: &Vec<u8>) -> (r: String)
    ensures
        r@ == hex_lower(bytes@),
{
    let mut r = String::new();
    push_hex(&mut r, bytes, 0, bytes.len());
    assert(bytes@.subrange(0, bytes@.len() as int) =~= bytes@);
    r
}

// ─── digests ──────────────────────────────────────────────────────────────

/// MD5 digest of a byte string.
pub uninterp spec fn md5_digest(data: Seq<u8>) -> Seq<u8>;

/// SHA-256 digest of a byte string.
pub uninterp spec fn sha256_digest(data: Seq<u8>) -> Seq<u8>;

/// SHA-512 digest of a byte string.
pub uninterp spec fn sha512_digest(data: Seq<u8>) -> Seq<u8>;

/// HMAC-SHA-256 of a message under a key.
pub uninterp spec fn hmac_sha256_tag(key: Seq<u8>, msg: Seq<u8>) -> Seq<u8>;

/// HMAC-SHA-512 of a message under a key.
pub uninterp spec fn hmac_sha512_tag(key: Seq<u8>, msg: Seq<u8>) -> Seq<u8>;

/// Calls the `md-5` crate (`Md5::new`, `update`, `finalize`). Claimed: a
/// 16-byte digest that depends on the input alone.
#[verifier::external_body]
fn md5_of(data: &[u8]) -> (r: Vec<u8>)
    ensures
        r@ == md5_digest(data@),
        r@.len() == 16,
{
    let mut h = md5::Md5::new();
    h.update(data);
    h.finalize().to_vec()
}

/// Calls the `sha2` crate (`Sha256`). Claimed: a 32-byte digest that
/// depends on the input alone.
#[verifier::external_body]
fn sha256_of(data: &[u8]) -> (r: Vec<u8>)
    ensures
        r@ == sha256_digest(data@),
        r@.len() == 32,
{
    let mut h = sha2::Sha256::new();
    h.update(data);
    h.finalize().to_vec()
}

/// Calls the `sha2` crate (`Sha512`). Claimed: a 64-byte digest that
/// depends on the input alone.
#[verifier::external_body]
fn sha512_of(data: &[u8]) -> (r: Vec<u8>)
    ensures
        r@ == sha512_digest(data@),
        r@.len() == 64,
{
    let mut h = sha2::Sha512::new();
    h.update(data);
    h.finalize().to_vec()
}

/// Calls the `hmac` crate (`Hmac<Sha256>::new_from_slice`, `update`,
/// `finalize`). Claimed: a 32-byte tag that depends on key and message
/// alone; a key of any length is accepted (the crate hashes long keys), so
/// the result is never an error.
#[verifier::external_body]
fn hmac_sha256_of(key: &[u8], msg: &[u8]) -> (r: std::result::Result<Vec<u8>, String>)
    ensures
        r is Ok,
        r matches Ok(t) ==> t@ == hmac_sha256_tag(key@, msg@) && t@.len() == 32,
{
    match hmac::Hmac::<sha2::Sha256>::new_from_slice(key) {
        Ok(mut mac) => {
            mac.update(msg);
            Ok(mac.finalize().into_bytes().to_vec())
        },
        Err(e) => Err(e.to_string()),
    }
}

/// Calls the `hmac` crate (`Hmac<Sha512>`). Claimed as for SHA-256, with a
/// 64-byte tag.
#[verifier::external_body]
fn hmac_sha512_of(key: &[u8], msg: &[u8]) -> (r: std::result::Result<Vec<u8>, String>)
    ensures
        r is Ok,
        r matches Ok(t) ==> t@ == hmac_sha512_tag(key@, msg@) && t@.len() == 64,
{
    match hmac::Hmac::<sha2::Sha512>::new_from_slice(key) {
        Ok(mut mac) => {
            mac.update(msg);
            Ok(mac.finalize().into_bytes().to_vec())
        },
        Err(e) => Err(e.to_string()),
    }
}

/// MD5 of the UTF-8 text, in lowercase hexadecimal (`crypto.md5`).
pub fn md5_hex(input: &str) -> (r: String)
    ensures
        r@ == hex_lower(md5_digest(encode_utf8(input@))),
        r@.len() == 32,
{
    let d = md5_of(input.as_bytes());
    proof {
        lemma_hex_len(d@);
    }
    hex_text(&d)
}

/// SHA-256 of the UTF-8 text, in lowercase hexadecimal (`crypto.sha256`).
pub fn sha256_hex(input: &str) -> (r: String)
    ensures
        r@ == hex_lower(sha256_digest(encode_utf8(input@))),
        r@.len() == 64,
{
    let d = sha256_of(input.as_bytes());
    proof {
        lemma_hex_len(d@);
    }
    hex_text(&d)
}

/// SHA-512 of the UTF-8 text, in lowercase hexadecimal (`crypto.sha512`).
pub fn sha512_hex(input: &str) -> (r: String)
    ensures
        r@ == hex_lower(sha512_digest(encode_utf8(input@))),
        r@.len() == 128,
{
    let d = sha512_of(input.as_bytes());
    proof {
        lemma_hex_len(d@);
    }
    hex_text(&d)
}

/// HMAC-SHA-256 of `msg` under `key`, in lowercase hexadecimal
/// (`crypto.hmacSha256`).
pub fn hmac_sha256_hex(key: &str, msg: &str) -> (r: Result<String>)
    ensures
        r matches Ok(t) && t@ == hex_lower(hmac_sha256_tag(encode_utf8(key@), encode_utf8(msg@))),
{
    match hmac_sha256_of(key.as_bytes(), msg.as_bytes()) {
        Ok(t) => Ok(hex_text(&t)),
        Err(e) => Err(HagitoriError::extension(e.as_str())),
    }
}

/// HMAC-SHA-512 of `msg` under `key`, in lowercase hexadecimal
/// (`crypto.hmacSha512`).
pub fn hmac_sha512_hex(key: &str, msg: &str) -> (r: Result<String>)
    ensures
        r matches Ok(t) && t@ == hex_lower(hmac_sha512_tag(encode_utf8(key@), encode_utf8(msg@))),
{
    match hmac_sha512_of(key.as_bytes(), msg.as_bytes()) {
        Ok(t) => Ok(hex_text(&t)),
        Err(e) => Err(HagitoriError::extension(e.as_str())),
    }
}

/// Two hexadecimal digits per byte.
pub proof fn lemma_hex_len(bytes: Seq<u8>)
    ensures
        hex_lower(bytes).len() == 2 * bytes.len(),
    decreases bytes.len(),
{
    if bytes.len() > 0 {
        lemma_hex_len(bytes.drop_last());
    }
}

// ─── random values ────────────────────────────────────────────────────────

/// Calls `getrandom::fill` on `n` zero bytes. Claimed: on success, `n`
/// bytes; nothing is claimed of their values. On failure, the error's text.
#[verifier::external_body]
fn random_fill(n: usize) -> (r: std::result::Result<Vec<u8>, String>)
    ensures
        r matches Ok(b) ==> b@.len() == n,
{
    let mut b = vec![0u8; n];
    match getrandom::fill(&mut b) {
        Ok(()) => Ok(b),
        Err(e) => Err(e.to_string()),
    }
}

/// The error a script sees when the system random source fails.
pub open spec fn random_failure(e: Seq<char>) -> Seq<char> {
    "getrandom failed: "@ + e
}

/// `n` random bytes (`crypto.randomBytes`).
pub fn random_bytes(n: usize) -> (r: Result<Vec<u8>>)
    ensures
        r matches Ok(b) ==> b@.len() == n,
        r matches Err(e) ==> (e matches HagitoriError::Extension(m) && exists|t: Seq<char>| m@ == random_failure(t)),
{
    match random_fill(n) {
        Ok(b) => Ok(b),
        Err(e) => {
            let mut m = String::new();
            push_str(&mut m, "getrandom failed: ");
            push_str(&mut m, e.as_str());
            assert(m@ == random_failure(e@));
            Err(HagitoriError::extension(m.as_str()))
        },
    }
}

/// The 16 bytes of a version-4, variant-1 UUID made from `b`.
pub open spec fn uuid_v4_bytes(b: Seq<u8>) -> Seq<u8> {
    b.update(6, (b[6] & 0x0f) | 0x40).update(8, (b[8] & 0x3f) | 0x80)
}

/// Canonical text of 16 UUID bytes: 8-4-4-4-12 hexadecimal digits.
pub open spec fn uuid_text(b: Seq<u8>) -> Seq<char> {
    hex_lower(b.subrange(0, 4)) + seq!['-'] + hex_lower(b.subrange(4, 6)) + seq!['-'] + hex_lower(
        b.subrange(6, 8),
    ) + seq!['-'] + hex_lower(b.subrange(8, 10)) + seq!['-'] + hex_lower(b.subrange(10, 16))
}

/// Text of the version-4 UUID made from 16 random bytes.
pub fn uuid_v4_text(bytes: &Vec<u8>) -> (r: String)
    requires
        bytes@.len() == 16,
    ensures
        r@ == uuid_text(uuid_v4_bytes(bytes@)),
{
    let mut b = bytes.clone();
    let b6 = (b[6] & 0x0f) | 0x40;
    let b8 = (b[8] & 0x3f) | 0x80;
    b.set(6, b6);
    b.set(8, b8);
    assert(b@ =~= uuid_v4_bytes(bytes@));
    let mut r = String::new();
    push_hex(&mut r, &b, 0, 4);
    push_char(&mut r, '-');
    push_hex(&mut r, &b, 4, 6);
    push_char(&mut r, '-');
    push_hex(&mut r, &b, 6, 8);
    push_char(&mut r, '-');
    push_hex(&mut r, &b, 8, 10);
    push_char(&mut r, '-');
    push_hex(&mut r, &b, 10, 16);
    assert(r@ =~= uuid_text(b@));
    r
}

/// A random version-4 UUID (`crypto.randomUUID`).
pub fn random_uuid() -> (r: Result<String>)
    ensures
        r matches Ok(t) ==> exists|b: Seq<u8>| b.len() == 16 && t@ == uuid_text(uuid_v4_bytes(b)),
        r matches Err(e) ==> (e matches HagitoriError::Extension(m) && exists|t: Seq<char>| m@ == random_failure(t)),
{
    match random_bytes(16) {
        Ok(b) => Ok(uuid_v4_text(&b)),
        Err(e) => Err(e),
    }
}

/// Every UUID made here is 36 characters long, has its dashes at
/// positions 8, 13, 18 and 23, the version digit `4` at position 14 and a
/// variant digit among `8`, `9`, `a`, `b` at position 19.
pub proof fn lemma_uuid_shape(b: Seq<u8>)
    requires
        b.len() == 16,
    ensures
        uuid_text(uuid_v4_bytes(b)).len() == 36,
        uuid_text(uuid_v4_bytes(b))[8] == '-',
        uuid_text(uuid_v4_bytes(b))[13] == '-',
        uuid_text(uuid_v4_bytes(b))[18] == '-',
        uuid_text(uuid_v4_bytes(b))[23] == '-',
        uuid_text(uuid_v4_bytes(b))[14] == '4',
        uuid_text(uuid_v4_bytes(b))[19] == '8' || uuid_text(uuid_v4_bytes(b))[19] == '9'
            || uuid_text(uuid_v4_bytes(b))[19] == 'a' || uuid_text(uuid_v4_bytes(b))[19] == 'b',
{
    let u = uuid_v4_bytes(b);
    lemma_hex_len(u.subrange(0, 4));
    lemma_hex_len(u.subrange(4, 6));
    lemma_hex_len(u.subrange(6, 8));
    lemma_hex_len(u.subrange(8, 10));
    lemma_hex_len(u.subrange(10, 16));
    let x6 = b[6];
    let x8 = b[8];
    let v6: u8 = (x6 & 0x0f) | 0x40;
    let v8: u8 = (x8 & 0x3f) | 0x80;
    assert(v6 / 16 == 4) by (bit_vector)
        requires
            v6 == (x6 & 0x0f) | 0x40,
    ;
    assert(8 <= v8 / 16 <= 11) by (bit_vector)
        requires
            v8 == (x8 & 0x3f) | 0x80,
    ;
    let s6 = u.subrange(6, 8);
    assert(s6.drop_last() =~= seq![u[6]]);
    assert(seq![u[6]].drop_last() =~= Seq::<u8>::empty());
    assert(hex_lower(seq![u[6]]) =~= hex_byte(u[6]));
    assert(hex_lower(s6) =~= hex_byte(u[6]) + hex_byte(u[7]));
    let s8 = u.subrange(8, 10);
    assert(s8.drop_last() =~= seq![u[8]]);
    assert(seq![u[8]].drop_last() =~= Seq::<u8>::empty());
    assert(hex_lower(seq![u[8]]) =~= hex_byte(u[8]));
    assert(hex_lower(s8) =~= hex_byte(u[8]) + hex_byte(u[9]));
    let t = uuid_text(u);
    assert(t[14] == hex_lower(s6)[0]);
    assert(t[19] == hex_lower(s8)[0]);
}

} // verus!
