//! The text of a newly issued API key and of the hint stored beside its hash.
use vstd::prelude::*;
use vstd::utf8::{decode_utf8, encode_utf8, is_char_boundary};
use crate::errors::StoreError;
use crate::text::nat_text;

verus! {

/// The digit of `d` in the standard base-62 alphabet: `0`-`9`, then `A`-`Z`,
/// then `a`-`z`.
pub open spec fn base62_digit(d: int) -> char {
    if d < 10 {
        (48 + d) as char
    } else if d < 36 {
        (65 + d - 10) as char
    } else {
        (97 + d - 36) as char
    }
}

/// The base-62 digits of `n`, most significant first, "0" for zero.
pub open spec fn base62_text(n: nat) -> Seq<char>
    decreases n,
{
    if n < 62 {
        seq![base62_digit(n as int)]
    } else {
        base62_text(n / 62).push(base62_digit((n % 62) as int))
    }
}

/// `base62::encode`: the crate documents the result as `n` written in base 62
/// with the standard digit order (0 to 9, then A to Z, then a to z); its
/// length is the number of digits, so zero is "0". The contract states that
/// text.
#[verifier::external_body]
fn base62_encode(n: u128) -> (s: String)
    ensures
        s@ == base62_text(n as nat),
{
    base62::encode(n)
}

/// A number of at least `62^3` has at least four base-62 digits.
pub proof fn lemma_base62_four_digits(n: nat)
    requires
        n >= 238328,
    ensures
        base62_text(n).len() >= 4,
{
    let a = n / 62;
    let b = a / 62;
    let c = b / 62;
    assert(a >= 3844);
    assert(b >= 62);
    assert(base62_text(c).len() >= 1);
    assert(base62_text(b).len() >= 2);
    assert(base62_text(a).len() >= 3);
}

/// The key prefix of a private key in environment `env`: `pv_{env}_`.
pub open spec fn key_prefix(env: Seq<char>) -> Seq<char> {
    seq!['p', 'v', '_'] + env + seq!['_']
}

/// The key handed to the user: the prefix, the random part, a slash and the
/// token's id in base 62 (by which the key's hash is found again).
pub open spec fn api_key_text(env: Seq<char>, random: Seq<char>, id: nat) -> Seq<char> {
    key_prefix(env) + random + seq!['/'] + base62_text(id)
}

/// The hint stored beside the hash: the prefix, the first four bytes of the
/// random part, `...`, and the last four base-62 digits of the id.
pub open spec fn hint_text(env: Seq<char>, random: Seq<char>, id: nat) -> Seq<char> {
    let digits = base62_text(id);
    key_prefix(env) + decode_utf8(encode_utf8(random).take(4)) + seq!['.', '.', '.'] + digits.skip(
        digits.len() - 4,
    )
}

/// The key given out once, and the hint kept with its hash.
#[derive(Debug)]
pub struct ApiKeyParts {
    pub api_key: String,
    pub hint: String,
}

/// Builds the key `pv_{env}_{random}/{id in base 62}` and its hint
/// `pv_{env}_{first four bytes of random}...{last four digits of the id}`.
/// The random part must be cut after its fourth byte, and the id needs four
/// base-62 digits (every id from `62^3` on).
pub fn api_key_parts(env_short: &str, random: &str, token_id: u128) -> (p: ApiKeyParts)
    requires
        is_char_boundary(encode_utf8(random@), 4),
        token_id >= 238328,
    ensures
        p.api_key@ == api_key_text(env_short@, random@, token_id as nat),
        p.hint@ == hint_text(env_short@, random@, token_id as nat),
{
    proof {
        reveal_strlit("pv_");
        reveal_strlit("_");
        reveal_strlit("/");
        reveal_strlit("...");
        lemma_base62_four_digits(token_id as nat);
    }
    let id_part = base62_encode(token_id);

    let mut prefix = "pv_".to_owned();
    prefix.append(env_short);
    prefix.append("_");

    let mut api_key = prefix.clone();
    api_key.append(random);
    api_key.append("/");
    api_key.append(id_part.as_str());

    let (head, _rest) = random.split_at(4);
    proof {
        vstd::utf8::encode_utf8_decode_utf8(head@);
    }
    let n = id_part.as_str().unicode_len();
    let tail = id_part.as_str().substring_char(n - 4, n);

    let mut hint = prefix;
    hint.append(head);
    hint.append("...");
    hint.append(tail);

    proof {
        assert(tail@ =~= base62_text(token_id as nat).skip(base62_text(token_id as nat).len() - 4));
        assert(api_key@ =~= api_key_text(env_short@, random@, token_id as nat));
        assert(hint@ =~= hint_text(env_short@, random@, token_id as nat));
    }
    ApiKeyParts { api_key, hint }
}

/// The error `argon2` reports when hashing fails.
#[verifier::external_type_specification]
#[verifier::external_body]
pub struct ExPasswordHashError(argon2::password_hash::Error);

/// The start of an Argon2id hash in PHC string form with memory `m` KiB,
/// `t` passes and `p` lanes, up to the `$` before the salt.
pub open spec fn argon2id_prefix(m: nat, t: nat, p: nat) -> Seq<char> {
    "$argon2id$v=19$m="@ + nat_text(m) + ",t="@ + nat_text(t) + ",p="@ + nat_text(p) + "$"@
}

/// `s` begins with `prefix`.
pub open spec fn starts_with(s: Seq<char>, prefix: Seq<char>) -> bool {
    prefix.len() <= s.len() && s.subrange(0, prefix.len() as int) == prefix
}

/// The PHC string that Argon2id (version 19, memory `m` KiB, `t` passes, `p`
/// lanes) gives for the bytes of `secret` with the salt `salt`.
pub uninterp spec fn argon2id_phc(secret: Seq<char>, salt: Seq<u8>, m: nat, t: nat, p: nat) -> Seq<char>;

/// `Argon2::new(Argon2id, V0x13, Params::new(m, t, p, None))`, then
/// `PasswordHasher::hash_password_with_salt` on the bytes of `secret` and
/// `salt`, and `to_string` of the result. Trusted: a hash returned is the
/// named PHC string of the secret and the salt under these parameters, and
/// starts with the algorithm, version 19 and the three parameters as
/// `argon2` and `phc` write them; a salt shorter than 8 or longer than 48
/// bytes is refused (`Salt::new`). Whether the hash succeeds otherwise (the
/// memory it allocates) is left unsaid. The requirement is what
/// `Params::new` accepts (it fails, and the call would panic, otherwise).
#[verifier::external_body]
fn argon2id_hash(secret: &str, salt: &[u8], m: u32, t: u32, p: u32) -> (r: Result<String, argon2::password_hash::Error>)
    requires
        m >= 8,
        t >= 1,
        1 <= p <= 0xFF_FFFF,
        m >= 8 * p,
    ensures
        r matches Ok(h) ==> h@ == argon2id_phc(secret@, salt@, m as nat, t as nat, p as nat),
        r matches Ok(h) ==> starts_with(h@, argon2id_prefix(m as nat, t as nat, p as nat)),
        !(8 <= salt@.len() <= 48) ==> r is Err,
{
    let params = argon2::Params::new(m, t, p, None).unwrap();
    let hasher = argon2::Argon2::new(argon2::Algorithm::Argon2id, argon2::Version::V0x13, params);
    let hash: argon2::PasswordHash = argon2::PasswordHasher::hash_password_with_salt(&hasher, secret.as_bytes(), salt)?;
    Ok(hash.to_string())
}

/// Memory cost of the key hash, in KiB.
pub const API_KEY_HASH_MEMORY_KIB: u32 = 5120;
/// Passes of the key hash.
pub const API_KEY_HASH_PASSES: u32 = 1;
/// Lanes of the key hash.
pub const API_KEY_HASH_LANES: u32 = 1;

/// What is stored of a new API key: its hint and the hash of its random
/// part, never the key itself.
#[derive(Debug)]
pub struct StoredApiKey {
    pub hint: String,
    pub hash: String,
}

/// A new API key: the key handed out once, and what is stored of it.
#[derive(Debug)]
pub struct IssuedApiKey {
    pub api_key: String,
    pub stored: StoredApiKey,
}

/// A new key from its parts and the outcome of hashing its random part: the
/// key and the hint with the hash when there is one, otherwise the error
/// "unable to hash api key".
pub fn issued_api_key(parts: ApiKeyParts, hash: Option<String>) -> (r: Result<IssuedApiKey, StoreError>)
    ensures
        match hash {
            Some(h) => r matches Ok(k) && k.api_key@ == parts.api_key@ && k.stored.hint@ == parts.hint@
                && k.stored.hash@ == h@,
            None => r matches Err(StoreError::InvalidArgument(m)) && m@ == "unable to hash api key"@,
        },
{
    match hash {
        Some(h) => Ok(IssuedApiKey { api_key: parts.api_key, stored: StoredApiKey { hint: parts.hint, hash: h } }),
        None => Err(StoreError::InvalidArgument("unable to hash api key".to_owned())),
    }
}

/// Issues an API key from its random part and a salt: the key and hint of
/// [`api_key_parts`], and the Argon2id hash (5 MiB, one pass, one lane) of
/// the random part with the salt, which is what is kept with the hint; the
/// key itself is never stored. A failure of the hash, which a salt of fewer
/// than 8 or more than 48 bytes always causes, is reported as "unable to
/// hash api key".
pub fn issue_api_key(env_short: &str, random: &str, salt: &[u8], token_id: u128) -> (r: Result<IssuedApiKey, StoreError>)
    requires
        is_char_boundary(encode_utf8(random@), 4),
        token_id >= 238328,
    ensures
        r matches Ok(k) ==> {
            &&& k.api_key@ == api_key_text(env_short@, random@, token_id as nat)
            &&& k.stored.hint@ == hint_text(env_short@, random@, token_id as nat)
            &&& k.stored.hash@ == argon2id_phc(random@, salt@, 5120, 1, 1)
            &&& starts_with(k.stored.hash@, argon2id_prefix(5120, 1, 1))
        },
        r matches Err(e) ==> (e matches StoreError::InvalidArgument(m) && m@ == "unable to hash api key"@),
        !(8 <= salt@.len() <= 48) ==> r is Err,
{
    let parts = api_key_parts(env_short, random, token_id);
    let hashed = match argon2id_hash(random, salt, API_KEY_HASH_MEMORY_KIB, API_KEY_HASH_PASSES, API_KEY_HASH_LANES) {
        Ok(h) => Some(h),
        Err(_) => None,
    };
    issued_api_key(parts, hashed)
}

} // verus!
