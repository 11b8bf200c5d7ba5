use vstd::prelude::*;
use argon2::password_hash::SaltString;
use argon2::PasswordHasher;
use crate::config::{Config, Variant};
use crate::report::decimal;

verus! {

#[verifier::external_type_specification]
#[verifier::external_body]
pub struct ExParams(argon2::Params);

#[verifier::external_type_specification]
#[verifier::external_body]
pub struct ExSaltString(SaltString);

/// Why the cost parameters were refused.
#[derive(Clone, Copy, PartialEq, Eq, Debug)]
pub enum ParamsRejection {
    MemoryTooLittle,
    TimeTooSmall,
    ThreadsTooFew,
    ThreadsTooMany,
    OutputTooShort,
    Unrecognized,
}

/// Why a salt cannot be put in the PHC salt form.
#[derive(Clone, Copy, PartialEq, Eq, Debug)]
pub enum SaltError {
    /// Its Base64 form would be under four characters.
    TooShort,
    /// Its Base64 form would be over sixty-four characters.
    TooLong,
}

pub const MIN_SALT_BYTES: usize = 3;
pub const MAX_SALT_BYTES: usize = 48;

/// The first bound that the costs break, checked in the order memory,
/// iterations, parallelism, output length; `None` when all hold.
/// Memory must be at least eight blocks and eight per lane.
pub open spec fn params_rejection(m: u32, t: u32, p: u32, l: u32) -> Option<ParamsRejection> {
    if m < 8 || (m as int) < 8 * (p as int) {
        Some(ParamsRejection::MemoryTooLittle)
    } else if t < 1 {
        Some(ParamsRejection::TimeTooSmall)
    } else if p < 1 {
        Some(ParamsRejection::ThreadsTooFew)
    } else if p > 0xFF_FFFF {
        Some(ParamsRejection::ThreadsTooMany)
    } else if l < 4 {
        Some(ParamsRejection::OutputTooShort)
    } else {
        None
    }
}

pub open spec fn config_rejection(c: Config) -> Option<ParamsRejection> {
    params_rejection(c.memory_kib, c.iterations, c.parallelism, c.output_len)
}

pub open spec fn salt_rejection(salt: Seq<u8>) -> Option<SaltError> {
    if salt.len() < MIN_SALT_BYTES {
        Some(SaltError::TooShort)
    } else if salt.len() > MAX_SALT_BYTES {
        Some(SaltError::TooLong)
    } else {
        None
    }
}

/// Relies on argon2::Params::new: it returns `Ok` exactly when no bound of
/// `params_rejection` is broken, else the error of the first one broken.
/// The source computes `p_cost * 8` in `u32`, hence the bound on `p`.
#[verifier::external_body]
fn argon2_params(m: u32, t: u32, p: u32, l: u32) -> (r: Result<argon2::Params, ParamsRejection>)
    requires
        8 * (p as int) <= u32::MAX,
    ensures
        match r {
            Ok(_) => params_rejection(m, t, p, l) is None,
            Err(e) => params_rejection(m, t, p, l) == Some(e),
        },
{
    match argon2::Params::new(m, t, p, Some(l as usize)) {
        Ok(params) => Ok(params),
        Err(argon2::Error::MemoryTooLittle) => Err(ParamsRejection::MemoryTooLittle),
        Err(argon2::Error::TimeTooSmall) => Err(ParamsRejection::TimeTooSmall),
        Err(argon2::Error::ThreadsTooFew) => Err(ParamsRejection::ThreadsTooFew),
        Err(argon2::Error::ThreadsTooMany) => Err(ParamsRejection::ThreadsTooMany),
        Err(argon2::Error::OutputTooShort) => Err(ParamsRejection::OutputTooShort),
        Err(_) => Err(ParamsRejection::Unrecognized),
    }
}

/// Relies on password_hash::SaltString::encode_b64: it writes the unpadded
/// Base64 form into 64 bytes, so it fails exactly on more than 48 bytes.
#[verifier::external_body]
fn encode_salt_b64(salt: &[u8]) -> (r: Option<SaltString>)
    ensures
        r is Some <==> salt@.len() <= MAX_SALT_BYTES,
{
    SaltString::encode_b64(salt).ok()
}

/// Cost parameters accepted by argon2, together with the configuration
/// they were built from.
#[derive(Debug)]
pub struct Hasher {
    config: Config,
    params: argon2::Params,
}

impl Hasher {
    /// The costs were accepted by argon2.
    #[verifier::type_invariant]
    pub closed spec fn inv(&self) -> bool {
        config_rejection(self.config) is None
    }

    pub closed spec fn config(&self) -> Config {
        self.config
    }

    /// The configuration these parameters were built from.
    pub fn configuration(&self) -> (r: Config)
        ensures
            r == self.config(),
            config_rejection(r) is None,
    {
        proof {
            use_type_invariant(self);
        }
        self.config
    }

    /// Checks the costs of `config` against argon2's bounds.
    pub fn new(config: &Config) -> (r: Result<Hasher, ParamsRejection>)
        ensures
            match r {
                Ok(h) => config_rejection(*config) is None && h.config() == *config,
                Err(e) => config_rejection(*config) == Some(e),
            },
    {
        // Memory below eight KiB per lane: no `u32` memory covers this many
        // lanes, and argon2 would overflow computing the bound.
        if config.parallelism > 0x1FFF_FFFF {
            return Err(ParamsRejection::MemoryTooLittle);
        }
        match argon2_params(config.memory_kib, config.iterations, config.parallelism, config.output_len) {
            Ok(params) => Ok(Hasher { config: *config, params }),
            Err(e) => Err(e),
        }
    }
}

/// A copy of `b` as a vector.
fn copy_bytes(b: &[u8]) -> (r: Vec<u8>)
    ensures
        r@ == b@,
{
    let mut out: Vec<u8> = Vec::new();
    let mut i: usize = 0;
    while i < b.len()
        invariant
            i <= b@.len(),
            out@ == b@.subrange(0, i as int),
        decreases b@.len() - i,
    {
        out.push(b[i]);
        i = i + 1;
    }
    assert(out@ =~= b@);
    out
}

/// A salt together with its PHC Base64 form.
#[derive(Debug)]
pub struct EncodedSalt {
    raw: Vec<u8>,
    b64: SaltString,
}

impl EncodedSalt {
    /// The salt's Base64 form has four to sixty-four characters.
    #[verifier::type_invariant]
    pub closed spec fn inv(&self) -> bool {
        salt_rejection(self.raw@) is None
    }

    pub closed spec fn bytes(&self) -> Seq<u8> {
        self.raw@
    }

    /// Encodes `salt` for the PHC string; refused when its Base64 form falls
    /// outside four to sixty-four characters.
    pub fn new(salt: &[u8]) -> (r: Result<EncodedSalt, SaltError>)
        ensures
            match r {
                Ok(s) => salt_rejection(salt@) is None && s.bytes() == salt@,
                Err(e) => salt_rejection(salt@) == Some(e),
            },
    {
        if salt.len() < MIN_SALT_BYTES {
            return Err(SaltError::TooShort);
        }
        match encode_salt_b64(salt) {
            Some(b64) => Ok(EncodedSalt { raw: copy_bytes(salt), b64 }),
            None => Err(SaltError::TooLong),
        }
    }
}

/// The digest and the PHC string of one hash.
#[derive(Debug)]
pub struct HashOutput {
    pub digest: Vec<u8>,
    pub encoded: String,
}

/// The digest that argon2 (version 0x13, no secret, no associated data)
/// gives for a variant, memory, iterations, parallelism, output length, salt
/// and password.
pub uninterp spec fn argon2_digest(
    variant: Variant,
    m: u32,
    t: u32,
    p: u32,
    l: u32,
    salt: Seq<u8>,
    password: Seq<u8>,
) -> Seq<u8>;

/// The digest that a configuration, salt and password determine.
pub open spec fn digest_of(c: Config, salt: Seq<u8>, password: Seq<u8>) -> Seq<u8> {
    argon2_digest(c.variant, c.memory_kib, c.iterations, c.parallelism, c.output_len, salt, password)
}

/// The Base64 alphabet of the PHC string format.
pub open spec fn b64_alphabet() -> Seq<char> {
    "ABCDEFGHIJKLMNOPQRSTUVWXYZabcdefghijklmnopqrstuvwxyz0123456789+/"@
}

/// Unpadded Base64: each three bytes give four characters; a final one or
/// two bytes give two or three.
pub open spec fn b64_unpadded(b: Seq<u8>) -> Seq<char>
    decreases b.len(),
{
    let a = b64_alphabet();
    if b.len() == 0 {
        Seq::empty()
    } else {
        let x = b[0] as int;
        let y = if b.len() > 1 { b[1] as int } else { 0 };
        let z = if b.len() > 2 { b[2] as int } else { 0 };
        if b.len() == 1 {
            seq![a[x / 4], a[(x % 4) * 16]]
        } else if b.len() == 2 {
            seq![a[x / 4], a[(x % 4) * 16 + y / 16], a[(y % 16) * 4]]
        } else {
            seq![a[x / 4], a[(x % 4) * 16 + y / 16], a[(y % 16) * 4 + z / 64], a[z % 64]]
                + b64_unpadded(b.subrange(3, b.len() as int))
        }
    }
}

/// The algorithm identifier of a variant in the PHC string.
pub open spec fn variant_ident(v: Variant) -> Seq<char> {
    match v {
        Variant::Argon2i => "argon2i"@,
        Variant::Argon2d => "argon2d"@,
        Variant::Argon2id => "argon2id"@,
    }
}

/// The PHC string of a hash: identifier, version 19, costs, salt and digest.
pub open spec fn phc_string(c: Config, salt: Seq<u8>, digest: Seq<u8>) -> Seq<char> {
    "$"@ + variant_ident(c.variant) + "$v=19$m="@ + decimal(c.memory_kib as nat) + ",t="@
        + decimal(c.iterations as nat) + ",p="@ + decimal(c.parallelism as nat) + "$"@
        + b64_unpadded(salt) + "$"@ + b64_unpadded(digest)
}

/// Argon2 hashes with accepted costs and an encodable salt exactly when the
/// salt has at least eight bytes, the output ten to sixty-four bytes, and the
/// password fits in 32 bits of length.
pub open spec fn hash_succeeds(c: Config, salt: Seq<u8>, password: Seq<u8>) -> bool {
    &&& salt.len() >= 8
    &&& 10 <= c.output_len <= 64
    &&& password.len() <= u32::MAX
}

/// `out` is what hashing `password` with `salt` under `c` yields.
pub open spec fn is_hash_of(out: HashOutput, c: Config, salt: Seq<u8>, password: Seq<u8>) -> bool {
    &&& out.digest@ == digest_of(c, salt, password)
    &&& out.digest@.len() == c.output_len
    &&& out.encoded@ == phc_string(c, salt, out.digest@)
}

/// Relies on argon2's `PasswordHasher::hash_password` at version 0x13. Its
/// digest depends on the variant, costs, salt and password alone and has the
/// configured length. Its PHC string (`PasswordHash`'s `Display`) is
/// `$id$v=19$m=..,t=..,p=..$salt$hash` in unpadded Base64. With the costs
/// already accepted by `Params::new`, it fails only on a salt under eight
/// bytes, an output outside ten to sixty-four bytes, or a password over
/// `u32::MAX` bytes. `SaltString::as_salt` panics on a Base64 form under four
/// characters, hence the bound on the salt.
#[verifier::external_body]
pub(crate) fn argon2_hash(h: &Hasher, salt: &EncodedSalt, password: &[u8]) -> (r: Result<HashOutput, String>)
    requires
        salt.inv(),
    ensures
        r is Ok <==> hash_succeeds(h.config(), salt.bytes(), password@),
        r is Ok ==> r->Ok_0.digest@ == argon2_digest(
            h.config().variant,
            h.config().memory_kib,
            h.config().iterations,
            h.config().parallelism,
            h.config().output_len,
            salt.bytes(),
            password@,
        ),
        r is Ok ==> r->Ok_0.digest@.len() == h.config().output_len,
        r is Ok ==> r->Ok_0.encoded@ == phc_string(h.config(), salt.bytes(), r->Ok_0.digest@),
{
    let algorithm = match h.config.variant {
        Variant::Argon2i => argon2::Algorithm::Argon2i,
        Variant::Argon2d => argon2::Algorithm::Argon2d,
        Variant::Argon2id => argon2::Algorithm::Argon2id,
    };
    let hasher = argon2::Argon2::new(algorithm, argon2::Version::V0x13, h.params.clone());
    match hasher.hash_password(password, salt.b64.as_salt()) {
        Ok(ph) => Ok(HashOutput {
            digest: ph.hash.map(|o| o.as_bytes().to_vec()).unwrap_or_default(),
            encoded: ph.to_string(),
        }),
        Err(e) => Err(e.to_string()),
    }
}

} // verus!
