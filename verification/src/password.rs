//! Password hashing in the format `$<iterations>$<salt>$<hash>`: PBKDF2 with
//! HMAC-SHA256 over a random salt, both encoded in standard Base64.

use base64::Engine;
use rand::RngCore;
use vstd::prelude::*;
use vstd::utf8::encode_utf8;

use crate::text::{
    decimal, lemma_decimal_digits, lemma_parse_decimal, nonempty_pieces, parse_u32, parsed_u32,
    push_decimal, split_nonempty, free_of, lemma_three_pieces, is_ascii_digit,
};

verus! {

/// Number of PBKDF2 rounds used for new hashes.
pub const ITERATIONS: u32 = 20_000;

/// Length in bytes of the salt and of the derived key.
pub const KEY_LEN: usize = 256;

/// Why a stored hash could not be checked.
#[derive(Debug, Clone, Copy, PartialEq, Eq, Structural)]
pub enum PasswordError {
    VerificationFailed,
}

/// The key that PBKDF2 with HMAC-SHA256 derives from `password` and `salt`
/// in `rounds` rounds, `len` bytes long.
pub uninterp spec fn pbkdf2_hmac_sha256(password: Seq<u8>, salt: Seq<u8>, rounds: u32, len: nat) -> Seq<u8>;

/// The character that stands for a six-bit value in the standard Base64
/// alphabet: `A`-`Z`, `a`-`z`, `0`-`9`, `+` and `/`.
pub open spec fn base64_symbol(v: int) -> char {
    if v < 26 {
        (65 + v) as char
    } else if v < 52 {
        (71 + v) as char
    } else if v < 62 {
        (v - 4) as char
    } else if v == 62 {
        '+'
    } else {
        '/'
    }
}

/// The standard (RFC 4648) Base64 encoding of `data`: each group of three
/// bytes gives four symbols of six bits each; a last group of one or two
/// bytes is padded with zero bits and completed with `=`.
pub open spec fn base64_encoding(data: Seq<u8>) -> Seq<char>
    decreases data.len(),
{
    if data.len() == 0 {
        Seq::empty()
    } else if data.len() == 1 {
        let b0 = data[0] as int;
        seq![base64_symbol(b0 / 4), base64_symbol((b0 % 4) * 16), '=', '=']
    } else if data.len() == 2 {
        let b0 = data[0] as int;
        let b1 = data[1] as int;
        seq![
            base64_symbol(b0 / 4),
            base64_symbol((b0 % 4) * 16 + b1 / 16),
            base64_symbol((b1 % 16) * 4),
            '=',
        ]
    } else {
        let b0 = data[0] as int;
        let b1 = data[1] as int;
        let b2 = data[2] as int;
        seq![
            base64_symbol(b0 / 4),
            base64_symbol((b0 % 4) * 16 + b1 / 16),
            base64_symbol((b1 % 16) * 4 + b2 / 64),
            base64_symbol(b2 % 64),
        ] + base64_encoding(data.skip(3))
    }
}

/// The bytes that a text decodes to in standard padded Base64, if it is a
/// valid encoding.
pub uninterp spec fn base64_decoding(text: Seq<char>) -> Option<Seq<u8>>;

/// A character of the standard Base64 alphabet, or the padding `=`.
pub open spec fn is_base64_char(c: char) -> bool {
    let u = c as u32;
    ||| 65 <= u <= 90
    ||| 97 <= u <= 122
    ||| 48 <= u <= 57
    ||| c == '+'
    ||| c == '/'
    ||| c == '='
}

/// Every character of the text is in the Base64 alphabet (or padding).
pub open spec fn all_base64(text: Seq<char>) -> bool {
    forall|i: int| 0 <= i < text.len() ==> #[trigger] is_base64_char(text[i])
}

proof fn lemma_base64_symbol(v: int)
    requires
        0 <= v < 64,
    ensures
        is_base64_char(base64_symbol(v)),
{
}

/// A Base64 encoding has four characters for each started group of three
/// bytes, all of them from the Base64 alphabet or padding.
pub proof fn lemma_base64_encoding_shape(data: Seq<u8>)
    ensures
        base64_encoding(data).len() == ((data.len() + 2) / 3) * 4,
        all_base64(base64_encoding(data)),
    decreases data.len(),
{
    let text = base64_encoding(data);
    if data.len() == 0 {
    } else if data.len() <= 2 {
        let b0 = data[0] as int;
        lemma_base64_symbol(b0 / 4);
        lemma_base64_symbol((b0 % 4) * 16);
        if data.len() == 2 {
            let b1 = data[1] as int;
            lemma_base64_symbol((b0 % 4) * 16 + b1 / 16);
            lemma_base64_symbol((b1 % 16) * 4);
        }
        assert forall|i: int| 0 <= i < text.len() implies #[trigger] is_base64_char(text[i]) by {
            if i == 0 {
            } else if i == 1 {
            } else if i == 2 {
            } else {
            }
        }
    } else {
        let b0 = data[0] as int;
        let b1 = data[1] as int;
        let b2 = data[2] as int;
        let head = seq![
            base64_symbol(b0 / 4),
            base64_symbol((b0 % 4) * 16 + b1 / 16),
            base64_symbol((b1 % 16) * 4 + b2 / 64),
            base64_symbol(b2 % 64),
        ];
        let rest = base64_encoding(data.skip(3));
        lemma_base64_encoding_shape(data.skip(3));
        lemma_base64_symbol(b0 / 4);
        lemma_base64_symbol((b0 % 4) * 16 + b1 / 16);
        lemma_base64_symbol((b1 % 16) * 4 + b2 / 64);
        lemma_base64_symbol(b2 % 64);
        assert(text == head + rest);
        assert forall|i: int| 0 <= i < text.len() implies #[trigger] is_base64_char(text[i]) by {
            if i < 4 {
                assert(text[i] == head[i]);
            } else {
                assert(text[i] == rest[i - 4]);
            }
        }
    }
}

/// The key derived for a password with the stored round count and length.
pub open spec fn stored_key(password: Seq<char>, salt: Seq<u8>) -> Seq<u8> {
    pbkdf2_hmac_sha256(encode_utf8(password), salt, ITERATIONS, KEY_LEN as nat)
}

/// Length of the stored form for a salt of `salt_len` bytes: three `$`,
/// the five digits of the round count, and both Base64 encodings.
pub open spec fn hash_text_len(salt_len: nat) -> nat {
    8 + ((salt_len + 2) / 3) * 4 + ((KEY_LEN as nat + 2) / 3) * 4
}

/// Calls `pbkdf2::pbkdf2::<Hmac<Sha256>>` into a buffer of `len` bytes.
/// Trusted: the key is the PBKDF2-HMAC-SHA256 result named above and has
/// `len` bytes. HMAC accepts keys of any length, so the call never fails.
#[verifier::external_body]
fn derive_key(password: &[u8], salt: &[u8], rounds: u32, len: usize) -> (key: Vec<u8>)
    ensures
        key@ == pbkdf2_hmac_sha256(password@, salt@, rounds, len as nat),
        key@.len() == len,
{
    let mut key = vec![0u8; len];
    let _ = pbkdf2::pbkdf2::<hmac::Hmac<sha2::Sha256>>(password, salt, rounds, &mut key);
    key
}

/// Calls `base64::engine::general_purpose::STANDARD.encode`.
/// Trusted: the text is the standard padded encoding stated above, and it
/// decodes back to `data`. The crate panics when the length overflows
/// `usize`, which `requires` rules out.
#[verifier::external_body]
fn base64_encode(data: &[u8]) -> (text: String)
    requires
        ((data@.len() + 2) / 3) * 4 <= usize::MAX,
    ensures
        text@ == base64_encoding(data@),
        base64_decoding(text@) == Some(data@),
{
    base64::engine::general_purpose::STANDARD.encode(data)
}

/// Calls `base64::engine::general_purpose::STANDARD.decode`.
/// Trusted: the result is the decoding named above, `None` exactly when the
/// crate reports a decode error.
#[verifier::external_body]
fn base64_decode(text: &str) -> (data: Option<Vec<u8>>)
    ensures
        data is Some <==> base64_decoding(text@) is Some,
        data matches Some(d) ==> base64_decoding(text@) == Some(d@),
{
    match base64::engine::general_purpose::STANDARD.decode(text) {
        Ok(d) => Some(d),
        Err(_) => None,
    }
}

/// Fills `len` bytes from `rand::thread_rng()` with `RngCore::fill_bytes`.
/// Trusted: only the length is stated; the bytes are random.
#[verifier::external_body]
fn random_bytes(len: usize) -> (bytes: Vec<u8>)
    ensures
        bytes@.len() == len,
{
    let mut bytes = vec![0u8; len];
    rand::thread_rng().fill_bytes(&mut bytes);
    bytes
}

/// The stored form of `password` hashed with `salt`:
/// `$<ITERATIONS>$<base64 salt>$<base64 key>`.
pub open spec fn password_hash_text(password: Seq<char>, salt: Seq<u8>) -> Seq<char> {
    seq!['$'] + decimal(ITERATIONS as nat) + seq!['$'] + base64_encoding(salt) + seq!['$']
        + base64_encoding(
        pbkdf2_hmac_sha256(encode_utf8(password), salt, ITERATIONS, KEY_LEN as nat),
    )
}

/// What checking `password` against the stored text gives: the text must
/// split at `$` into exactly three non-empty parts, a round count, a Base64
/// salt and a Base64 key; then the password verifies when the key derived
/// with that salt and round count equals the stored key.
pub open spec fn verification_outcome(password: Seq<char>, stored: Seq<char>) -> Result<
    bool,
    PasswordError,
> {
    let parts = nonempty_pieces(stored, '$');
    if parts.len() != 3 {
        Err(PasswordError::VerificationFailed)
    } else {
        match parsed_u32(parts[0]) {
            None => Err(PasswordError::VerificationFailed),
            Some(rounds) => match base64_decoding(parts[1]) {
                None => Err(PasswordError::VerificationFailed),
                Some(salt) => match base64_decoding(parts[2]) {
                    None => Err(PasswordError::VerificationFailed),
                    Some(expected) => Ok(
                        pbkdf2_hmac_sha256(encode_utf8(password), salt, rounds, KEY_LEN as nat)
                            == expected,
                    ),
                },
            },
        }
    }
}

/// The salt that a stored text carries: the Base64 decoding of its middle
/// part, when the text splits at `$` into exactly three non-empty parts.
pub open spec fn salt_of(stored: Seq<char>) -> Option<Seq<u8>> {
    let parts = nonempty_pieces(stored, '$');
    if parts.len() == 3 {
        base64_decoding(parts[1])
    } else {
        None
    }
}

/// Stored texts that carry different salts are different texts: hashing
/// with two salts never gives the same stored form.
pub proof fn lemma_different_salts_differ(
    first: Seq<char>,
    first_salt: Seq<u8>,
    second: Seq<char>,
    second_salt: Seq<u8>,
)
    requires
        salt_of(first) == Some(first_salt),
        salt_of(second) == Some(second_salt),
        first_salt != second_salt,
    ensures
        first != second,
{
}

fn bytes_equal(a: &[u8], b: &[u8]) -> (r: bool)
    ensures
        r == (a@ == b@),
{
    if a.len() != b.len() {
        return false;
    }
    let mut i: usize = 0;
    while i < a.len()
        invariant
            i <= a@.len(),
            a@.len() == b@.len(),
            forall|k: int| 0 <= k < i ==> a@[k] == b@[k],
        decreases a.len() - i,
    {
        if a[i] != b[i] {
            return false;
        }
        i = i + 1;
    }
    assert(a@ =~= b@);
    true
}


/// Hashes `password` with the given salt into its stored form: the round
/// count, then the salt and the derived key in Base64. With a non-empty
/// salt, checking any password against the result compares its key with
/// the hashed password's, so the hashed password itself verifies.
pub fn hash_password_with_salt(password: &str, salt: &[u8]) -> (hashed: String)
    requires
        ((salt@.len() + 2) / 3) * 4 <= usize::MAX,
    ensures
        hashed@ == password_hash_text(password@, salt@),
        hashed@.len() == hash_text_len(salt@.len()),
        all_base64(base64_encoding(salt@)),
        all_base64(base64_encoding(stored_key(password@, salt@))),
        salt@.len() > 0 ==> forall|other: Seq<char>|
            #[trigger] verification_outcome(other, hashed@) == Ok::<bool, PasswordError>(
                stored_key(other, salt@) == stored_key(password@, salt@),
            ),
        salt@.len() > 0 ==> verification_outcome(password@, hashed@) == Ok::<bool, PasswordError>(
            true,
        ),
        salt@.len() > 0 ==> salt_of(hashed@) == Some(salt@),
{
    proof {
        reveal_strlit("$");
    }
    let derived = derive_key(password.as_bytes(), salt, ITERATIONS, KEY_LEN);
    let hash = base64_encode(derived.as_slice());
    let salt_b64 = base64_encode(salt);
    proof {
        lemma_base64_encoding_shape(salt@);
        lemma_base64_encoding_shape(derived@);
    }
    let mut out = String::new();
    out.append("$");
    push_decimal(&mut out, ITERATIONS as u64);
    out.append("$");
    out.append(salt_b64.as_str());
    out.append("$");
    out.append(hash.as_str());
    let ghost digits = decimal(ITERATIONS as nat);
    assert(out@ =~= password_hash_text(password@, salt@));
    proof {
        reveal_with_fuel(decimal, 6);
        assert(digits.len() == 5);
        if salt@.len() > 0 {
            lemma_decimal_digits(ITERATIONS as nat);
            lemma_parse_decimal(ITERATIONS);
            assert(free_of(digits, '$')) by {
                assert forall|k: int| 0 <= k < digits.len() implies digits[k] != '$' by {
                    assert(is_ascii_digit(digits[k]));
                }
            }
            assert(free_of(salt_b64@, '$')) by {
                assert forall|k: int| 0 <= k < salt_b64@.len() implies salt_b64@[k] != '$' by {
                    assert(is_base64_char(salt_b64@[k]));
                }
            }
            assert(free_of(hash@, '$')) by {
                assert forall|k: int| 0 <= k < hash@.len() implies hash@[k] != '$' by {
                    assert(is_base64_char(hash@[k]));
                }
            }
            assert(hash@.len() > 0);
            assert(salt_b64@.len() > 0);
            lemma_three_pieces(digits, salt_b64@, hash@, '$');
            assert(out@ == seq!['$'] + digits + seq!['$'] + salt_b64@ + seq!['$'] + hash@);
            assert forall|other: Seq<char>|
                #[trigger] verification_outcome(other, out@) == Ok::<bool, PasswordError>(
                    stored_key(other, salt@) == stored_key(password@, salt@),
                ) by {
                assert(nonempty_pieces(out@, '$') == seq![digits, salt_b64@, hash@]);
            }
            assert(salt_of(out@) == Some(salt@)) by {
                assert(nonempty_pieces(out@, '$') == seq![digits, salt_b64@, hash@]);
            }
        }
    }
    out
}

/// Hashes `password` with a fresh random salt of `KEY_LEN` bytes. Whatever
/// the salt, the result has the stored form for it, and checking any
/// password against it compares that password's key with this one's, so
/// the hashed password verifies.
pub fn hash_password(password: &str) -> (r: Result<String, PasswordError>)
    ensures
        r matches Ok(h) && (exists|salt: Seq<u8>|
            {
                &&& salt.len() == KEY_LEN
                &&& h@ == #[trigger] password_hash_text(password@, salt)
                &&& all_base64(base64_encoding(salt))
                &&& all_base64(base64_encoding(stored_key(password@, salt)))
                &&& salt_of(h@) == Some(salt)
                &&& forall|other: Seq<char>|
                    #[trigger] verification_outcome(other, h@) == Ok::<bool, PasswordError>(
                        stored_key(other, salt) == stored_key(password@, salt),
                    )
            }),
        r matches Ok(h) && h@.len() == hash_text_len(KEY_LEN as nat),
        r matches Ok(h) && verification_outcome(password@, h@) == Ok::<bool, PasswordError>(true),
{
    let salt = random_bytes(KEY_LEN);
    let hashed = hash_password_with_salt(password, salt.as_slice());
    Ok(hashed)
}

/// Checks `password` against a stored hash: `Ok(true)` when it matches,
/// `Ok(false)` when it does not, and `Err` when the stored text is malformed.
pub fn verify_password(password: &str, stored: &str) -> (r: Result<bool, PasswordError>)
    ensures
        r == verification_outcome(password@, stored@),
{
    let parts = split_nonempty(stored, '$');
    if parts.len() != 3 {
        return Err(PasswordError::VerificationFailed);
    }
    let rounds = match parse_u32(parts[0].as_str()) {
        Some(n) => n,
        None => return Err(PasswordError::VerificationFailed),
    };
    let salt = match base64_decode(parts[1].as_str()) {
        Some(s) => s,
        None => return Err(PasswordError::VerificationFailed),
    };
    let expected = match base64_decode(parts[2].as_str()) {
        Some(h) => h,
        None => return Err(PasswordError::VerificationFailed),
    };
    let derived = derive_key(password.as_bytes(), salt.as_slice(), rounds, KEY_LEN);
    Ok(bytes_equal(derived.as_slice(), expected.as_slice()))
}

} // verus!
