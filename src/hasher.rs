//! Password hashing and verification with Argon2id.
use vstd::prelude::*;

use argon2::password_hash::rand_core::OsRng;
use argon2::password_hash::{PasswordHash, PasswordHasher, PasswordVerifier, SaltString};
use argon2::{Algorithm, Argon2, Params, Version};
use vstd::string::*;

verus! {

/// Memory cost of one hash, in MiB.
pub const MEMORY_COST_MB: u32 = 46;

/// Number of passes over the memory.
pub const TIME_COST: u32 = 2;

/// Upper bound on the degree of parallelism, whatever the host offers.
pub const MAX_PARALLELISM: u32 = 8;

/// The reason a hash could not be derived.
#[derive(Debug, Clone, Copy, PartialEq, Eq)]
pub enum HashingError {
    /// The tuning parameters were refused (for instance, no cores).
    InvalidParams,
    /// The derivation itself failed.
    Derivation,
}

/// The tuning parameters of one Argon2id instance, as plain numbers.
#[derive(Debug, Clone, Copy, PartialEq, Eq)]
pub struct HashParams {
    pub memory_kib: u32,
    pub time_cost: u32,
    pub parallelism: u32,
}

/// The degree of parallelism used on a host with `cores` cores.
pub open spec fn parallelism_for(cores: u32) -> u32 {
    if cores > MAX_PARALLELISM { MAX_PARALLELISM } else { cores }
}

/// The parameters chosen for a host with `cores` cores.
pub open spec fn params_for(cores: u32) -> HashParams {
    HashParams {
        memory_kib: (MEMORY_COST_MB * 1024) as u32,
        time_cost: TIME_COST,
        parallelism: parallelism_for(cores),
    }
}

/// When argon2 accepts a set of parameters (no explicit output length).
pub open spec fn argon2_params_valid(m_cost: u32, t_cost: u32, p_cost: u32) -> bool {
    &&& m_cost >= 8
    &&& m_cost >= 8 * p_cost
    &&& t_cost >= 1
    &&& 1 <= p_cost <= 0xFFFFFF
}

/// An ASCII decimal digit.
pub open spec fn is_digit(c: char) -> bool {
    '0' <= c && c <= '9'
}

/// Whether nine decimal digits start at position `j` of `s`.
pub open spec fn digit_run_at(s: Seq<char>, j: int) -> bool {
    &&& 0 <= j
    &&& j + 9 <= s.len()
    &&& forall|k: int| j <= k < j + 9 ==> is_digit(#[trigger] s[k])
}

/// Whether no `p=` in `s` is followed by nine digits. In a PHC string the
/// parallelism value follows `p=`; argon2 never accepts one of more than
/// eight digits, and a value of nine or more digits is where its parameter
/// check would overflow.
pub open spec fn phc_guard(s: Seq<char>) -> bool {
    forall|i: int|
        0 <= i && i + 1 < s.len() && #[trigger] s[i] == 'p' && s[i + 1] == '=' ==> !digit_run_at(
            s,
            i + 2,
        )
}

/// The character of one decimal digit.
pub open spec fn digit_char(d: nat) -> char {
    if d == 0 {
        '0'
    } else if d == 1 {
        '1'
    } else if d == 2 {
        '2'
    } else if d == 3 {
        '3'
    } else if d == 4 {
        '4'
    } else if d == 5 {
        '5'
    } else if d == 6 {
        '6'
    } else if d == 7 {
        '7'
    } else if d == 8 {
        '8'
    } else {
        '9'
    }
}

/// `n` written in decimal, without leading zeros.
pub open spec fn decimal(n: nat) -> Seq<char>
    decreases n,
{
    if n < 10 {
        seq![digit_char(n)]
    } else {
        decimal(n / 10).push(digit_char(n % 10))
    }
}

/// The start of the PHC string of an Argon2id (version 0x13) hash with the
/// given memory, time and parallelism, up to the `$` before the salt.
pub open spec fn phc_head(m_cost: u32, t_cost: u32, p_cost: u32) -> Seq<char> {
    "$argon2id$v=19$m="@ + decimal(m_cost as nat) + ",t="@ + decimal(t_cost as nat) + ",p="@
        + decimal(p_cost as nat) + "$"@
}

/// Whether the PHC string `s` starts with the head for `params`.
pub open spec fn encodes_params(s: Seq<char>, params: HashParams) -> bool {
    let head = phc_head(params.memory_kib, params.time_cost, params.parallelism);
    s.len() >= head.len() && s.subrange(0, head.len() as int) == head
}

/// Whether argon2 accepts `password` against the encoded hash `phc`:
/// the string parses as a password hash, and the key derived from the
/// password with the algorithm, version, parameters and salt it records
/// (and no secret key) equals the key it holds.
pub uninterp spec fn phc_accepts(password: Seq<char>, phc: Seq<char>) -> bool;

#[verifier::external_type_specification]
#[verifier::external_body]
pub struct ExPasswordHashError(argon2::password_hash::Error);

/// Relies on argon2::Params::new, argon2::Argon2::new (Argon2id, version
/// 0x13, no secret), password_hash::SaltString::generate over the operating
/// system's random source (16 fresh bytes), and argon2's
/// PasswordHasher::hash_password, rendered as a PHC string. With valid
/// parameters and that salt, hashing fails only for a password over
/// 2^32 - 1 bytes. The string starts with the algorithm, version and
/// parameters; the salt and key after them are unpadded base64; the same
/// password is accepted against it.
#[verifier::external_body]
fn argon2id_hash(m_cost: u32, t_cost: u32, p_cost: u32, password: &str) -> (r: Result<
    String,
    argon2::password_hash::Error,
>)
    requires
        argon2_params_valid(m_cost, t_cost, p_cost),
        m_cost <= 65536,
    ensures
        password@.len() <= 0x3FFF_FFFF ==> r is Ok,
        r is Ok ==> encodes_params(
            r->Ok_0@,
            HashParams { memory_kib: m_cost, time_cost: t_cost, parallelism: p_cost },
        ),
        r is Ok ==> phc_guard(r->Ok_0@),
        r is Ok ==> phc_accepts(password@, r->Ok_0@),
{
    let params = Params::new(m_cost, t_cost, p_cost, None)?;
    let salt = SaltString::generate(&mut OsRng);
    Argon2::new(Algorithm::Argon2id, Version::V0x13, params).hash_password(
        password.as_bytes(),
        &salt,
    ).map(|h| h.to_string())
}

/// Relies on password_hash::PasswordHash::new and argon2's
/// PasswordVerifier::verify_password on a default instance (no secret):
/// the algorithm, version, parameters and salt are those recorded in `phc`,
/// and a string that does not parse is refused. The guard keeps the
/// parallelism read from `phc` below 2^29, where argon2's parameter check
/// computes `8 * p` without overflow.
#[verifier::external_body]
fn argon2_verify(password: &str, phc: &str) -> (r: bool)
    requires
        phc_guard(phc@),
    ensures
        r == phc_accepts(password@, phc@),
        phc@.len() == 0 ==> !r,
        phc@.len() > 0 && phc@[0] != '$' ==> !r,
{
    match PasswordHash::new(phc) {
        Ok(parsed) => Argon2::default().verify_password(password.as_bytes(), &parsed).is_ok(),
        Err(_) => false,
    }
}

/// Chooses the Argon2id parameters for a host with `cores` cores.
/// Zero cores is refused; more than `MAX_PARALLELISM` are capped.
pub fn get_a2id(cores: u32) -> (r: Result<HashParams, HashingError>)
    ensures
        cores == 0 <==> r is Err,
        r is Ok ==> r->Ok_0 == params_for(cores),
        r is Err ==> r->Err_0 == HashingError::InvalidParams,
{
    if cores == 0 {
        return Err(HashingError::InvalidParams);
    }
    let parallelism: u32 = if cores > MAX_PARALLELISM { MAX_PARALLELISM } else { cores };
    Ok(HashParams { memory_kib: MEMORY_COST_MB * 1024, time_cost: TIME_COST, parallelism })
}

/// Whether the password `password` matches the encoded hash `hash`: the
/// hash passes the guard and argon2 accepts the password against it.
pub open spec fn password_matches(password: Seq<char>, hash: Seq<char>) -> bool {
    phc_guard(hash) && phc_accepts(password, hash)
}

/// Hashes `password` with a fresh salt, tuned for a host with `cores`
/// cores. It fails exactly when there are no cores, or when the password is
/// too long for argon2. What it returns records the chosen parameters and
/// is always accepted by `verify_password` for the same password.
pub fn hash_password(password: &str, cores: u32) -> (r: Result<String, HashingError>)
    ensures
        r == Err::<String, HashingError>(HashingError::InvalidParams) <==> cores == 0,
        cores > 0 && password@.len() <= 0x3FFF_FFFF ==> r is Ok,
        r is Ok ==> encodes_params(r->Ok_0@, params_for(cores)),
        r is Ok ==> password_matches(password@, r->Ok_0@),
{
    let params = match get_a2id(cores) {
        Ok(p) => p,
        Err(e) => return Err(e),
    };
    match argon2id_hash(params.memory_kib, params.time_cost, params.parallelism, password) {
        Ok(s) => Ok(s),
        Err(_) => Err(HashingError::Derivation),
    }
}

/// Whether nine digits start at position `j` of `s`.
fn digit_run_from(s: &str, n: usize, j: usize) -> (r: bool)
    requires
        n == s@.len(),
        j <= n,
    ensures
        r == digit_run_at(s@, j as int),
{
    if n - j < 9 {
        return false;
    }
    let mut k: usize = j;
    while k < j + 9
        invariant
            j <= k <= j + 9,
            j + 9 <= n,
            n == s@.len(),
            forall|q: int| j <= q < k ==> is_digit(#[trigger] s@[q]),
        decreases j + 9 - k,
    {
        let c = s.get_char(k);
        if !('0' <= c && c <= '9') {
            return false;
        }
        k = k + 1;
    }
    true
}

/// Checks `phc_guard` on an encoded hash.
pub fn phc_is_guarded(s: &str) -> (r: bool)
    ensures
        r == phc_guard(s@),
{
    let n = s.unicode_len();
    let mut i: usize = 0;
    while n > 1 && i < n - 1
        invariant
            i <= n,
            n == s@.len(),
            forall|q: int|
                0 <= q < i && q + 1 < s@.len() && #[trigger] s@[q] == 'p' && s@[q + 1] == '='
                    ==> !digit_run_at(s@, q + 2),
        decreases n - i,
    {
        if s.get_char(i) == 'p' && s.get_char(i + 1) == '=' && digit_run_from(s, n, i + 2) {
            return false;
        }
        i = i + 1;
    }
    true
}

/// Checks `password` against the encoded hash `hash`, with the algorithm,
/// parameters and salt recorded in the hash. A hash that does not parse, or
/// whose parallelism is written with nine digits or more (which argon2
/// never accepts), gives `false`.
pub fn verify_password(password: &str, hash: &str) -> (r: bool)
    ensures
        r == password_matches(password@, hash@),
{
    if !phc_is_guarded(hash) {
        return false;
    }
    argon2_verify(password, hash)
}

} // verus!
