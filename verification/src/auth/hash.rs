//! Password hashes and cache tags.

use argon2::password_hash::{PasswordHash, PasswordHasher, PasswordVerifier, SaltString};
use argon2::{Algorithm, Argon2, Params, Version};
use hmac::{Hmac, Mac};
use sha2::Sha256;
use subtle::ConstantTimeEq;
use vstd::prelude::*;
use vstd::utf8::encode_utf8;

use crate::text::{chars_of, join, number_text};

verus! {

/// Argon2 memory cost, 5 MiB: what keeps a graphics card from trying many
/// passwords at once.
pub const M_KIB: u32 = 5120;

/// Argon2 passes over the memory.
pub const T: u32 = 2;

/// Argon2 lanes.
pub const P: u32 = 1;

/// The error of the operating system's random source.
#[verifier::external_type_specification]
#[verifier::external_body]
pub struct ExRandomError(getrandom::Error);

/// The error of the `password-hash` crate.
#[verifier::external_type_specification]
#[verifier::external_body]
pub struct ExPasswordHashError(argon2::password_hash::Error);

/// Calls `getrandom::getrandom` on a fresh array. Nothing is promised of the
/// bytes, nor that there are any.
#[verifier::external_body]
pub(crate) fn random_bytes<const N: usize>() -> (r: Result<[u8; N], getrandom::Error>) {
    let mut bytes = [0u8; N];
    getrandom::getrandom(&mut bytes)?;
    Ok(bytes)
}

/// Whether the random source has an error to give in place of `N` bytes. What
/// came back from a call is known only by making it, so this holds only where
/// a call was made and gave one.
pub closed spec fn no_random_bytes<const N: usize>() -> bool {
    exists|e: getrandom::Error| #[trigger]
        call_ensures(random_bytes::<N>, (), Err::<[u8; N], getrandom::Error>(e))
}

/// Random bytes are missing only where a call of the random source can end in
/// an error: it is no matter of what the bytes were wanted for.
pub(crate) proof fn missing_bytes_are_an_error_of_the_source<const N: usize>()
    requires
        no_random_bytes::<N>(),
    ensures
        exists|e: getrandom::Error| #[trigger]
            call_ensures(random_bytes::<N>, (), Err::<[u8; N], getrandom::Error>(e)),
{
}

/// Calls a function and keeps what is known of its result.
fn called<R, F: FnOnce() -> R>(f: F) -> (r: R)
    requires
        call_requires(f, ()),
    ensures
        call_ensures(f, (), r),
{
    f()
}

/// Draws `N` random bytes. An error is one that the random source gave.
pub(crate) fn draw_bytes<const N: usize>() -> (r: Result<[u8; N], getrandom::Error>)
    ensures
        r is Err ==> no_random_bytes::<N>(),
{
    let r = called(random_bytes::<N>);
    assert(r matches Err(e) ==> call_ensures(
        random_bytes::<N>,
        (),
        Err::<[u8; N], getrandom::Error>(e),
    ));
    r
}

/// Calls `to_string` of `getrandom::Error`. The text is that of the operating
/// system, and nothing is promised of it.
#[verifier::external_body]
pub(crate) fn random_error_text(e: &getrandom::Error) -> String {
    e.to_string()
}

/// Calls `to_string` of `password_hash::Error`; nothing is promised of the
/// text.
#[verifier::external_body]
fn hash_error_text(e: &argon2::password_hash::Error) -> String {
    e.to_string()
}

/// The PHC string that Argon2id, version 0x13, with a 32-byte output makes of
/// a password, a salt and the three costs.
pub uninterp spec fn argon2id_phc(
    password: Seq<u8>,
    salt: Seq<u8>,
    m_kib: u32,
    t: u32,
    p: u32,
) -> Seq<char>;

/// The text of a PHC string before its salt: algorithm, version and costs.
pub open spec fn phc_prefix(m_kib: u32, t: u32, p: u32) -> Seq<char> {
    "$argon2id$v=19$m="@ + number_text(m_kib as nat, 10) + ",t="@ + number_text(t as nat, 10)
        + ",p="@ + number_text(p as nat, 10) + "$"@
}

/// Whether Argon2 accepts a password for a PHC string.
pub uninterp spec fn argon2_accepts(phc: Seq<char>, password: Seq<u8>) -> bool;

/// An ASCII digit.
pub open spec fn is_digit(c: char) -> bool {
    '0' <= c <= '9'
}

/// Whether a parameter `p` of nine or more digits begins at `i`.
pub open spec fn long_lanes_at(phc: Seq<char>, i: int) -> bool {
    &&& 0 <= i
    &&& i + 11 <= phc.len()
    &&& phc[i] == 'p'
    &&& phc[i + 1] == '='
    &&& forall|k: int| i + 2 <= k < i + 11 ==> is_digit(#[trigger] phc[k])
}

/// Whether no parameter `p` of a PHC string has nine or more digits. Argon2
/// allows at most 16777215 lanes.
pub open spec fn lanes_fit(phc: Seq<char>) -> bool {
    forall|i: int| !#[trigger] long_lanes_at(phc, i)
}

/// Calls `Params::new`, `SaltString::encode_b64` and `hash_password` of
/// `argon2`'s `Argon2` for Argon2id, version 0x13, and writes the result as a
/// PHC string. With valid costs and a salt of 16 bytes the crate refuses only
/// a password of more than 2^32 - 1 bytes. Its string begins with `$`, the
/// algorithm, the version and the costs in decimal, names the lanes once, in
/// at most eight digits, and is accepted for the password.
#[verifier::external_body]
fn argon2id_hash(password: &[u8], salt: &[u8; 16], m_kib: u32, t: u32, p: u32) -> (r: Result<
    String,
    argon2::password_hash::Error,
>)
    requires
        8 <= m_kib,
        1 <= t,
        1 <= p <= 0xff_ffff,
        8 * p <= m_kib,
    ensures
        r is Ok <==> password@.len() <= 0xffff_ffff,
        r matches Ok(phc) ==> {
            &&& phc@ == argon2id_phc(password@, salt@, m_kib, t, p)
            &&& phc@.len() > 0 && phc@[0] == '$'
            &&& phc_prefix(m_kib, t, p).is_prefix_of(phc@)
            &&& lanes_fit(phc@)
            &&& argon2_accepts(phc@, password@)
        },
{
    let params = Params::new(m_kib, t, p, None)?;
    let salt = SaltString::encode_b64(salt)?;
    let argon2 = Argon2::new(Algorithm::Argon2id, Version::V0x13, params);
    let phc = argon2.hash_password(password, &salt)?.to_string();
    Ok(phc)
}

/// Calls `PasswordHash::new` and `verify_password` of `argon2`'s `Argon2`,
/// which takes algorithm, version, costs and salt from the string: whether the
/// string is a PHC string that this password hashes to. A PHC string begins
/// with `$`. The multiplication of the lanes by eight in `Params::new` can
/// overflow when they have more than eight digits. That the memory which the
/// string asks for can be had is left out of account.
#[verifier::external_body]
fn argon2_check(phc: &str, password: &[u8]) -> (r: bool)
    requires
        lanes_fit(phc@),
    ensures
        r == argon2_accepts(phc@, password@),
        r ==> phc@.len() > 0 && phc@[0] == '$',
{
    match PasswordHash::new(phc) {
        Ok(parsed) => Argon2::default().verify_password(password, &parsed).is_ok(),
        Err(_) => false,
    }
}

/// HMAC-SHA256 of a message under a key.
pub uninterp spec fn hmac_sha256(key: Seq<u8>, message: Seq<u8>) -> Seq<u8>;

/// Calls `Mac::new_from_slice`, `update` and `finalize` of `hmac`'s
/// `Hmac<Sha256>`: the tag of the message under the key.
#[verifier::external_body]
fn hmac_tag(key: &[u8; 32], message: &[u8]) -> (r: [u8; 32])
    ensures
        r@ == hmac_sha256(key@, message@),
{
    let mut mac = Hmac::<Sha256>::new_from_slice(key).expect("HMAC accepts any key length");
    mac.update(message);
    mac.finalize().into_bytes().into()
}

/// Calls `ct_eq` of `subtle`: equality of two tags in time that does not
/// depend on their content.
#[verifier::external_body]
pub(crate) fn tags_equal(a: &[u8; 32], b: &[u8; 32]) -> (r: bool)
    ensures
        r == (a@ == b@),
{
    bool::from(a.as_slice().ct_eq(b.as_slice()))
}

/// Why an authentication secret could not be made.
#[derive(Debug)]
pub enum AuthError {
    /// The operating system gave no random bytes.
    Random(String),
    /// Argon2 refused the input.
    Argon2(String),
}

impl AuthError {
    /// The text of an error.
    pub open spec fn text(self) -> Seq<char> {
        match self {
            AuthError::Random(e) => "OS random source unavailable: "@ + e@,
            AuthError::Argon2(e) => "Argon2 hash failed: "@ + e@,
        }
    }

    /// The text that describes the error.
    pub fn message(&self) -> (r: String)
        ensures
            r@ == self.text(),
    {
        match self {
            AuthError::Random(e) => join("OS random source unavailable: ", e),
            AuthError::Argon2(e) => join("Argon2 hash failed: ", e),
        }
    }
}

/// Whether a stored hash accepts a password. A text that is no PHC string of
/// a possible number of lanes accepts none.
pub open spec fn hash_accepts(hash: Seq<char>, password: Seq<char>) -> bool {
    lanes_fit(hash) && argon2_accepts(hash, encode_utf8(password))
}

/// The text that every stored password hash begins with.
pub const HASH_PREFIX: &'static str = "$argon2id$v=19$m=5120,t=2,p=1$";

/// The prefix of the hashes that are made here.
proof fn lemma_hash_prefix()
    ensures
        phc_prefix(M_KIB, T, P) == HASH_PREFIX@,
{
    reveal_strlit("$argon2id$v=19$m=5120,t=2,p=1$");
    reveal_strlit("$argon2id$v=19$m=");
    reveal_strlit(",t=");
    reveal_strlit(",p=");
    reveal_strlit("$");
    reveal_with_fuel(number_text, 5);
    assert(number_text(5120, 10) =~= seq!['5', '1', '2', '0']);
    assert(phc_prefix(M_KIB, T, P) =~= HASH_PREFIX@);
}

/// Whether a text is a hash that this library makes of a password: Argon2id
/// with its three costs, under some 16-byte salt.
pub open spec fn is_password_hash(hash: Seq<char>, password: Seq<char>) -> bool {
    &&& exists|salt: Seq<u8>|
        salt.len() == 16 && hash == #[trigger] argon2id_phc(
            encode_utf8(password),
            salt,
            M_KIB,
            T,
            P,
        )
    &&& HASH_PREFIX@.is_prefix_of(hash)
    &&& hash_accepts(hash, password)
}

/// Hashes a password under a given salt.
pub fn hash_with_salt(password: &str, salt: &[u8; 16]) -> (r: Result<String, AuthError>)
    ensures
        match r {
            Ok(h) => {
                &&& h@ == argon2id_phc(encode_utf8(password@), salt@, M_KIB, T, P)
                &&& is_password_hash(h@, password@)
                &&& h@.len() > 0 && h@[0] == '$'
            },
            Err(e) => e is Argon2,
        },
        r is Ok <==> encode_utf8(password@).len() <= 0xffff_ffff,
{
    match argon2id_hash(password.as_bytes(), salt, M_KIB, T, P) {
        Ok(phc) => {
            proof {
                lemma_hash_prefix();
                assert(salt@.len() == 16);
            }
            Ok(phc)
        },
        Err(e) => Err(AuthError::Argon2(hash_error_text(&e))),
    }
}

/// Hashes a fresh password into a self-contained PHC string: algorithm,
/// costs, a random salt and the hash in one line.
pub fn compute_hash(password: &str) -> (r: Result<String, AuthError>)
    ensures
        match r {
            Ok(h) => {
                &&& is_password_hash(h@, password@)
                &&& h@.len() > 0 && h@[0] == '$'
                &&& encode_utf8(password@).len() <= 0xffff_ffff
            },
            Err(e) => {
                ||| e is Random && no_random_bytes::<16>()
                ||| e is Argon2 && encode_utf8(password@).len() > 0xffff_ffff
            },
        },
{
    match draw_bytes::<16>() {
        Ok(salt) => hash_with_salt(password, &salt),
        Err(e) => Err(AuthError::Random(random_error_text(&e))),
    }
}

/// Whether a parameter `p` of nine or more digits begins at `i`.
fn long_lanes_begin(v: &Vec<char>, i: usize) -> (r: bool)
    requires
        i + 11 <= v@.len(),
    ensures
        r == long_lanes_at(v@, i as int),
{
    let len: usize = v.len();
    assert(i + 11 <= len);
    if v[i] != 'p' || v[i + 1] != '=' {
        return false;
    }
    let end: usize = i + 11;
    let mut k: usize = i + 2;
    while k < end
        invariant
            i + 2 <= k <= end <= v@.len(),
            end == i + 11,
            forall|j: int| i + 2 <= j < k ==> is_digit(#[trigger] v@[j]),
        decreases end - k,
    {
        let c = v[k];
        if c < '0' || c > '9' {
            assert(!is_digit(v@[k as int]));
            return false;
        }
        k += 1;
    }
    true
}

/// Whether no parameter `p` has nine or more digits.
fn lanes_are_possible(phc: &str) -> (r: bool)
    ensures
        r == lanes_fit(phc@),
{
    let v = chars_of(phc);
    let mut i: usize = 0;
    while i < v.len() && v.len() - i >= 11
        invariant
            i <= v@.len(),
            v@ == phc@,
            forall|j: int| 0 <= j < i ==> !#[trigger] long_lanes_at(phc@, j),
        decreases v@.len() - i,
    {
        if long_lanes_begin(&v, i) {
            assert(long_lanes_at(phc@, i as int));
            return false;
        }
        i += 1;
    }
    true
}

/// Checks a password against a stored hash. `false` for a malformed hash.
pub fn argon2_verify(stored_phc: &str, password: &str) -> (r: bool)
    ensures
        r == hash_accepts(stored_phc@, password@),
        r ==> stored_phc@.len() > 0 && stored_phc@[0] == '$',
{
    if !lanes_are_possible(stored_phc) {
        return false;
    }
    argon2_check(stored_phc, password.as_bytes())
}

/// What a login is remembered by: the user name, a zero byte, the password.
pub open spec fn cache_message(name: Seq<char>, password: Seq<char>) -> Seq<u8> {
    encode_utf8(name) + seq![0u8] + encode_utf8(password)
}

/// The tag of a login under a server secret.
pub open spec fn cache_tag(secret: Seq<u8>, name: Seq<char>, password: Seq<char>) -> Seq<u8> {
    hmac_sha256(secret, cache_message(name, password))
}

/// The bytes that a login is remembered by. The zero byte keeps `("ab", "cd")`
/// and `("a", "bcd")` apart.
pub fn login_message(name: &str, password: &str) -> (r: Vec<u8>)
    ensures
        r@ == cache_message(name@, password@),
{
    let mut message: Vec<u8> = Vec::new();
    message.extend_from_slice(name.as_bytes());
    message.push(0);
    message.extend_from_slice(password.as_bytes());
    assert(message@ =~= cache_message(name@, password@));
    message
}

/// The tag under which a login is remembered.
pub fn compute_cache_hmac(secret: &[u8; 32], name: &str, password: &str) -> (r: [u8; 32])
    ensures
        r@ == cache_tag(secret@, name@, password@),
{
    let message = login_message(name, password);
    hmac_tag(secret, message.as_slice())
}

} // verus!
