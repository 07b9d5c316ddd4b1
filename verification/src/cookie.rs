//! The session cookie: the user's login, encrypted with AES-128-CBC under a
//! key derived from the configured secret, and encoded in URL-safe base64.
//!
//! A cookie's bytes are `iv ++ [0] ++ ciphertext`, the iv 16 bytes long;
//! reading one takes the first 16 bytes as the iv, checks the zero byte after
//! them, and decrypts the rest. Every cookie made reads back as its data.

use vstd::prelude::*;
use vstd::utf8::{decode_utf8, encode_utf8, valid_utf8};
use vstd::string::StringSliceAdditionalSpecFns;
use crate::config::Config;
use rand::Rng;
use rand::SeedableRng;

verus! {

broadcast use vstd::string::group_string_axioms;

#[verifier::external_type_specification]
#[verifier::external_body]
pub struct ExErrorStack(openssl::error::ErrorStack);

#[verifier::external_type_specification]
#[verifier::external_body]
pub struct ExDecodeError(base64::DecodeError);

#[verifier::external_type_specification]
#[verifier::external_body]
pub struct ExFromUtf8Error(std::string::FromUtf8Error);

/// SHA-256 of `data` (`openssl::sha::sha256`).
pub uninterp spec fn sha256_digest(data: Seq<u8>) -> Seq<u8>;

/// `openssl::symm::encrypt` with AES-128-CBC (PKCS#7 padding) of `data` under
/// `key` and `iv`; `None` where it returns an error.
pub uninterp spec fn aes128_cbc_encrypt(key: Seq<u8>, iv: Seq<u8>, data: Seq<u8>) -> Option<
    Seq<u8>,
>;

/// `openssl::symm::decrypt` with AES-128-CBC of `data` under `key` and `iv`;
/// `None` where it returns an error (a bad padding, for one).
pub uninterp spec fn aes128_cbc_decrypt(key: Seq<u8>, iv: Seq<u8>, data: Seq<u8>) -> Option<
    Seq<u8>,
>;

/// The character of the URL-safe base64 alphabet `A-Z a-z 0-9 - _` that
/// stands for `v` (below 64).
pub open spec fn base64_url_char(v: u8) -> char {
    if v < 26 {
        (65 + v) as char
    } else if v < 52 {
        (71 + v) as char
    } else if v < 62 {
        (v - 4) as char
    } else if v == 62 {
        '-'
    } else {
        '_'
    }
}

/// Base64 of `data` with the URL-safe alphabet and no padding
/// (`base64::encode_config` with `URL_SAFE_NO_PAD`): each group of three
/// bytes as four characters of six bits each, a last group of one or two
/// bytes as two or three characters, the unused low bits zero.
pub open spec fn base64_url_encoding(d: Seq<u8>) -> Seq<char>
    decreases d.len(),
{
    if d.len() == 0 {
        Seq::empty()
    } else if d.len() == 1 {
        seq![base64_url_char(d[0] >> 2), base64_url_char((d[0] & 3) << 4)]
    } else if d.len() == 2 {
        seq![
            base64_url_char(d[0] >> 2),
            base64_url_char(((d[0] & 3) << 4) | (d[1] >> 4)),
            base64_url_char((d[1] & 15) << 2),
        ]
    } else {
        seq![
            base64_url_char(d[0] >> 2),
            base64_url_char(((d[0] & 3) << 4) | (d[1] >> 4)),
            base64_url_char(((d[1] & 15) << 2) | (d[2] >> 6)),
            base64_url_char(d[2] & 63),
        ] + base64_url_encoding(d.skip(3))
    }
}

/// `base64::decode_config` of `text` with the URL-safe alphabet, no padding;
/// `None` where the text is refused.
pub uninterp spec fn base64_url_decoding(text: Seq<u8>) -> Option<Seq<u8>>;

/// `n` random bytes from a ChaCha20 generator seeded from the operating
/// system's random source (`ChaCha20Rng::from_rng(OsRng)`, then `Rng::fill`);
/// `None` where the operating system gives no random seed.
///
/// Only their number is stated: the bytes themselves are chance.
#[verifier::external_body]
fn random_bytes(n: usize) -> (bytes: Option<Vec<u8>>)
    ensures
        bytes matches Some(v) ==> v@.len() == n,
{
    let mut buf = vec![0x00u8; n];
    let mut rng = rand_chacha::ChaCha20Rng::from_rng(rand::rngs::OsRng).ok()?;
    rng.fill(&mut buf[..]);
    Some(buf)
}

/// The UTF-8 bytes of `s` (`str::as_bytes`); like every object, they number
/// at most `isize::MAX`.
#[verifier::external_body]
fn utf8_bytes(s: &str) -> (b: &[u8])
    ensures
        b@ == s.spec_bytes(),
        b@.len() <= isize::MAX,
{
    s.as_bytes()
}

/// `openssl::sha::sha256`: the 32-byte SHA-256 digest of `data`.
#[verifier::external_body]
fn sha256(data: &[u8]) -> (digest: Vec<u8>)
    ensures
        digest@ == sha256_digest(data@),
        digest@.len() == 32,
{
    openssl::sha::sha256(data).to_vec()
}

/// `openssl::symm::encrypt(Cipher::aes_128_cbc(), key, Some(iv), data)`.
/// It panics on data longer than `i32::MAX` bytes (the length is passed to
/// OpenSSL as a C `int`).
///
/// States that the result is [`aes128_cbc_encrypt`]; that with a 16-byte key
/// and iv, encryption of data whose padded length still fits an `int`
/// succeeds; that the ciphertext is the data padded (PKCS#7) to the next
/// whole 16-byte block; and that decrypting it under the same key and iv gives
/// `data` back.
#[verifier::external_body]
fn aes_encrypt(key: &[u8], iv: &[u8], data: &[u8]) -> (r: Result<Vec<u8>, openssl::error::ErrorStack>)
    requires
        key@.len() == 16,
        iv@.len() == 16,
        data@.len() <= i32::MAX,
    ensures
        data@.len() + 16 <= i32::MAX ==> r is Ok,
        match r {
            Ok(c) => aes128_cbc_encrypt(key@, iv@, data@) == Some(c@)
                && aes128_cbc_decrypt(key@, iv@, c@) == Some(data@)
                && c@.len() == 16 * (data@.len() / 16 + 1),
            Err(_) => aes128_cbc_encrypt(key@, iv@, data@) is None,
        },
{
    openssl::symm::encrypt(openssl::symm::Cipher::aes_128_cbc(), key, Some(iv), data)
}

/// `openssl::symm::decrypt(Cipher::aes_128_cbc(), key, Some(iv), data)`.
/// It panics on an iv shorter than the cipher's 16 bytes and on data longer
/// than `i32::MAX` bytes.
#[verifier::external_body]
fn aes_decrypt(key: &[u8], iv: &[u8], data: &[u8]) -> (r: Result<Vec<u8>, openssl::error::ErrorStack>)
    requires
        key@.len() == 16,
        iv@.len() >= 16,
        data@.len() <= i32::MAX,
    ensures
        match r {
            Ok(p) => aes128_cbc_decrypt(key@, iv@, data@) == Some(p@),
            Err(_) => aes128_cbc_decrypt(key@, iv@, data@) is None,
        },
{
    openssl::symm::decrypt(openssl::symm::Cipher::aes_128_cbc(), key, Some(iv), data)
}

/// `base64::encode_config(data, base64::URL_SAFE_NO_PAD)`.
///
/// States that the result is [`base64_url_encoding`], that it is made of the
/// URL-safe alphabet and has the unpadded length, and that decoding its bytes
/// with the same configuration gives `data` back.
#[verifier::external_body]
fn base64_encode(data: &[u8]) -> (text: String)
    requires
        data@.len() / 3 * 4 + 3 <= usize::MAX,
    ensures
        text@ == base64_url_encoding(data@),
        text@.len() == base64_len(data@.len()),
        url_safe_text(text@),
        base64_url_decoding(encode_utf8(text@)) == Some(data@),
{
    base64::encode_config(data, base64::URL_SAFE_NO_PAD)
}

/// `base64::decode_config(text, base64::URL_SAFE_NO_PAD)`.
#[verifier::external_body]
fn base64_decode(text: &[u8]) -> (r: Result<Vec<u8>, base64::DecodeError>)
    requires
        text@.len() + 3 <= usize::MAX,
    ensures
        match r {
            Ok(b) => base64_url_decoding(text@) == Some(b@),
            Err(_) => base64_url_decoding(text@) is None,
        },
{
    base64::decode_config(text, base64::URL_SAFE_NO_PAD)
}

/// `String::from_utf8`: the text `bytes` encode, if they are valid UTF-8.
#[verifier::external_body]
fn string_from_utf8(bytes: Vec<u8>) -> (r: Result<String, std::string::FromUtf8Error>)
    ensures
        match r {
            Ok(s) => valid_utf8(bytes@) && s@ == decode_utf8(bytes@),
            Err(_) => !valid_utf8(bytes@),
        },
{
    String::from_utf8(bytes)
}

/// The length of the unpadded base64 text of `n` bytes.
pub open spec fn base64_len(n: nat) -> nat {
    n / 3 * 4 + if n % 3 == 0 {
        0nat
    } else if n % 3 == 1 {
        2nat
    } else {
        3nat
    }
}

/// Every character of `s` is in the URL-safe base64 alphabet
/// `A-Z a-z 0-9 - _`.
pub open spec fn url_safe_text(s: Seq<char>) -> bool {
    forall|i: int|
        0 <= i < s.len() ==> {
            let c = #[trigger] s[i];
            ('A' <= c <= 'Z') || ('a' <= c <= 'z') || ('0' <= c <= '9') || c == '-' || c == '_'
        }
}

/// The 16-byte key folded from a 32-byte digest: byte `i` is the exclusive or
/// of digest bytes `i` and `i + 16`.
pub open spec fn fold_digest(d: Seq<u8>) -> Seq<u8> {
    Seq::new(16, |i: int| d[i] ^ d[i + 16])
}

/// The cookie key of `secret`.
pub open spec fn secret_key(secret: Seq<char>) -> Seq<u8> {
    fold_digest(sha256_digest(encode_utf8(secret)))
}

/// The ciphertext of `data` under `secret` and `iv`, if encryption succeeds.
pub open spec fn sealed(secret: Seq<char>, data: Seq<char>, iv: Seq<u8>) -> Option<Seq<u8>> {
    aes128_cbc_encrypt(secret_key(secret), iv, encode_utf8(data))
}

/// The cookie made of `data` under `secret` with initialisation vector `iv`.
pub open spec fn cookie_text(secret: Seq<char>, data: Seq<char>, iv: Seq<u8>) -> Option<Seq<char>> {
    match sealed(secret, data, iv) {
        Some(c) => Some(base64_url_encoding(iv + seq![0u8] + c)),
        None => None,
    }
}

/// The iv and the ciphertext of a cookie's bytes: the first 16 bytes, and
/// what follows the zero byte after them; `None` for bytes of another shape.
pub open spec fn cookie_parts(b: Seq<u8>) -> Option<(Seq<u8>, Seq<u8>)> {
    if b.len() >= 17 && b[16] == 0 {
        Some((b.take(16), b.skip(17)))
    } else {
        None
    }
}

/// The text a cookie holds under `secret`: base64-decode it, take its iv and
/// ciphertext (see [`cookie_parts`]), decrypt, and read the result as UTF-8;
/// `None` where any step fails.
pub open spec fn cookie_value(secret: Seq<char>, text: Seq<char>) -> Option<Seq<char>> {
    match base64_url_decoding(encode_utf8(text)) {
        None => None,
        Some(bytes) => match cookie_parts(bytes) {
            None => None,
            Some((iv, c)) => match aes128_cbc_decrypt(secret_key(secret), iv, c) {
                None => None,
                Some(p) => if valid_utf8(p) {
                    Some(decode_utf8(p))
                } else {
                    None
                },
            },
        },
    }
}

/// A cookie whose ciphertext is longer than `i32::MAX` bytes; decrypting
/// that much panics.
pub open spec fn oversized_cookie(text: Seq<char>) -> bool {
    &&& base64_url_decoding(encode_utf8(text)) matches Some(bytes)
    &&& cookie_parts(bytes) matches Some((_, c))
    &&& c.len() > i32::MAX
}

/// The key under which cookies are sealed: the SHA-256 digest of the secret,
/// folded to 16 bytes.
pub fn hash_secret(config: &Config) -> (key: Vec<u8>)
    ensures
        key@ == secret_key(config.secret@),
{
    let sha = sha256(utf8_bytes(config.secret.as_str()));
    let mut output: Vec<u8> = Vec::new();
    for i in 0..16
        invariant
            sha@.len() == 32,
            output@ == fold_digest(sha@).take(i as int),
    {
        output.push(sha[i] ^ sha[i + 16]);
        assert(output@ =~= fold_digest(sha@).take(i + 1));
    }
    assert(output@ =~= fold_digest(sha@));
    output
}

/// The iv and the ciphertext of a cookie's bytes (see [`cookie_parts`]).
fn split_parts(b: &[u8]) -> (r: Option<(Vec<u8>, Vec<u8>)>)
    ensures
        match r {
            Some((iv, c)) => cookie_parts(b@) == Some((iv@, c@)),
            None => cookie_parts(b@) is None,
        },
{
    let n = b.len();
    if n < 17 || b[16] != 0 {
        return None;
    }
    let mut iv: Vec<u8> = Vec::new();
    for j in 0..16
        invariant
            n == b@.len(),
            17 <= n,
            iv@ == b@.take(j as int),
    {
        iv.push(b[j]);
        assert(iv@ =~= b@.take(j + 1));
    }
    let mut c: Vec<u8> = Vec::new();
    for j in 17..n
        invariant
            n == b@.len(),
            17 <= n,
            c@ == b@.subrange(17, j as int),
    {
        c.push(b[j]);
        assert(c@ =~= b@.subrange(17, j + 1));
    }
    assert(c@ =~= b@.skip(17));
    Some((iv, c))
}

/// The facts every cookie made of `data` keeps: it reads back under the same
/// secret as `data`, it is URL-safe base64 of `33 + 16 * (n / 16)` bytes for
/// `n` bytes of data, and where the data leaves room for the padding its
/// ciphertext can be decrypted without panicking.
pub open spec fn reads_back(secret: Seq<char>, data: Seq<char>, t: Seq<char>) -> bool {
    &&& cookie_value(secret, t) == Some(data)
    &&& t.len() == base64_len((33 + 16 * (encode_utf8(data).len() / 16)) as nat)
    &&& url_safe_text(t)
    &&& encode_utf8(data).len() + 16 <= i32::MAX ==> !oversized_cookie(t)
}

/// `t` is the cookie of `data` under `secret` for some 16-byte iv.
pub open spec fn made_cookie(secret: Seq<char>, data: Seq<char>, t: Seq<char>) -> bool {
    exists|iv: Seq<u8>| iv.len() == 16 && #[trigger] cookie_text(secret, data, iv) == Some(t)
}

/// The cookie holding `data`, sealed under the configured secret with the
/// initialisation vector `iv`: it exists wherever the data leaves room for the
/// padding, and it reads back as `data`.
pub fn create_with_iv(config: &Config, data: &str, iv: &[u8]) -> (cookie: Option<String>)
    requires
        iv@.len() == 16,
        encode_utf8(data@).len() <= i32::MAX,
    ensures
        match cookie {
            Some(t) => cookie_text(config.secret@, data@, iv@) == Some(t@),
            None => cookie_text(config.secret@, data@, iv@) is None,
        },
        encode_utf8(data@).len() + 16 <= i32::MAX ==> cookie is Some,
        cookie matches Some(t) ==> reads_back(config.secret@, data@, t@),
{
    let key = hash_secret(config);
    let bytes = utf8_bytes(data);
    let encrypted = match aes_encrypt(key.as_slice(), iv, bytes) {
        Err(_) => return None,
        Ok(v) => v,
    };
    let mut result: Vec<u8> = Vec::new();
    for j in 0..iv.len()
        invariant
            iv@.len() == 16,
            result@ == iv@.take(j as int),
    {
        result.push(iv[j]);
        assert(result@ =~= iv@.take(j + 1));
    }
    assert(iv@.take(16) =~= iv@);
    result.push(0u8);
    let ghost head = result@;
    for j in 0..encrypted.len()
        invariant
            head.len() == 17,
            result@ == head + encrypted@.take(j as int),
    {
        result.push(encrypted[j]);
        assert(result@ =~= head + encrypted@.take(j + 1));
    }
    assert(encrypted@.take(encrypted@.len() as int) =~= encrypted@);
    assert(result@ == iv@ + seq![0u8] + encrypted@);
    proof {
        let n = bytes@.len();
        assert(16 * (n / 16 + 1) <= n + 16) by (nonlinear_arith);
        assert(17 + 16 * (n / 16 + 1) == 33 + 16 * (n / 16)) by (nonlinear_arith);
    }
    let text = base64_encode(result.as_slice());
    proof {
        broadcast use vstd::utf8::group_utf8_lib;

        let b = result@;
        assert(b.take(16) =~= iv@);
        assert(b.skip(17) =~= encrypted@);
        vstd::utf8::encode_utf8_decode_utf8(data@);
        vstd::utf8::encode_utf8_valid_utf8(data@);
    }
    Some(text)
}

/// A new cookie holding `data`, sealed under the configured secret with a
/// fresh random initialisation vector; `None` where no random seed can be had,
/// or where encryption fails (which it does not where the data leaves room for
/// the padding). The cookie reads back as `data`.
pub fn create(config: &Config, data: String) -> (cookie: Option<String>)
    requires
        encode_utf8(data@).len() <= i32::MAX,
    ensures
        cookie matches Some(t) ==> made_cookie(config.secret@, data@, t@),
        cookie matches Some(t) ==> reads_back(config.secret@, data@, t@),
{
    let iv = match random_bytes(16) {
        None => return None,
        Some(iv) => iv,
    };
    create_with_iv(config, data.as_str(), iv.as_slice())
}

/// The text a cookie holds under the configured secret, if it reads back.
pub fn decode(config: &Config, data: String) -> (value: Option<String>)
    requires
        !oversized_cookie(data@),
    ensures
        match value {
            Some(v) => cookie_value(config.secret@, data@) == Some(v@),
            None => cookie_value(config.secret@, data@) is None,
        },
{
    let text = utf8_bytes(data.as_str());
    let bytes = match base64_decode(text) {
        Err(_) => return None,
        Ok(v) => v,
    };
    let (iv, encrypted) = match split_parts(bytes.as_slice()) {
        None => return None,
        Some(parts) => parts,
    };
    let key = hash_secret(config);
    let decrypted = match aes_decrypt(key.as_slice(), iv.as_slice(), encrypted.as_slice()) {
        Err(_) => return None,
        Ok(v) => v,
    };
    match string_from_utf8(decrypted) {
        Err(_) => None,
        Ok(v) => Some(v),
    }
}

/// Reads a cookie as [`decode`] does where that does not panic; `None` for a
/// cookie on which it panics (one whose ciphertext is longer than `i32::MAX`
/// bytes).
pub fn decode_checked(config: &Config, data: String) -> (value: Option<Option<String>>)
    ensures
        match value {
            None => oversized_cookie(data@),
            Some(None) => !oversized_cookie(data@) && cookie_value(config.secret@, data@) is None,
            Some(Some(v)) => !oversized_cookie(data@) && cookie_value(config.secret@, data@) == Some(
                v@,
            ),
        },
{
    let text = utf8_bytes(data.as_str());
    if let Ok(bytes) = base64_decode(text) {
        if let Some((_, c)) = split_parts(bytes.as_slice()) {
            if c.len() > 2147483647 {
                return None;
            }
        }
    }
    Some(decode(config, data))
}

} // verus!
