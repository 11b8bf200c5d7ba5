use vstd::prelude::*;
use crate::report::decimal;
use crate::config::{pow2, resolve_config, resolved, Config, Flags, MemorySpec, OutputMode, UsageError, Variant};
use crate::hashing::{
    argon2_hash, b64_alphabet, b64_unpadded, config_rejection, hash_succeeds, is_hash_of, salt_rejection, EncodedSalt, HashOutput, Hasher,
    ParamsRejection, SaltError,
};

verus! {

/// Everything that can stop an invocation before its output is written.
#[derive(Debug)]
pub enum Failure {
    Usage(UsageError),
    InvalidParameters(ParamsRejection),
    InvalidSalt(SaltError),
    Hashing(String),
}

/// Checked costs and an encoded salt, ready to hash with.
#[derive(Debug)]
pub struct Prepared {
    pub hasher: Hasher,
    pub salt: EncodedSalt,
}

/// What preparing an invocation gives: usage errors first, then the costs,
/// then the salt.
pub open spec fn prepare_outcome(flags: Flags, salt: Seq<u8>, r: Result<Prepared, Failure>) -> bool {
    match resolved(flags) {
        Err(e) => r matches Err(Failure::Usage(u)) && u == e,
        Ok(c) => match config_rejection(c) {
            Some(x) => r matches Err(Failure::InvalidParameters(y)) && y == x,
            None => match salt_rejection(salt) {
                Some(x) => r matches Err(Failure::InvalidSalt(y)) && y == x,
                None => r matches Ok(p) && p.hasher.config() == c && p.salt.bytes() == salt,
            },
        },
    }
}

/// Resolves the flags, checks the costs and encodes the salt, in that order;
/// no hashing is attempted here.
pub fn prepare(flags: Flags, salt: &[u8]) -> (r: Result<Prepared, Failure>)
    ensures
        prepare_outcome(flags, salt@, r),
{
    let config = match resolve_config(flags) {
        Ok(c) => c,
        Err(e) => {
            return Err(Failure::Usage(e));
        },
    };
    let hasher = match Hasher::new(&config) {
        Ok(h) => h,
        Err(e) => {
            return Err(Failure::InvalidParameters(e));
        },
    };
    let salt = match EncodedSalt::new(salt) {
        Ok(s) => s,
        Err(e) => {
            return Err(Failure::InvalidSalt(e));
        },
    };
    Ok(Prepared { hasher, salt })
}

/// What hashing gives: the hash when argon2 accepts the salt, output length
/// and password, else a hashing failure.
pub open spec fn hash_outcome(
    c: Config,
    salt: Seq<u8>,
    password: Seq<u8>,
    r: Result<HashOutput, Failure>,
) -> bool {
    &&& r is Ok <==> hash_succeeds(c, salt, password)
    &&& match r {
        Ok(out) => is_hash_of(out, c, salt, password),
        Err(f) => f is Hashing,
    }
}

/// Hashes `password` with what `prepare` produced.
pub fn hash(p: &Prepared, password: &[u8]) -> (r: Result<HashOutput, Failure>)
    ensures
        hash_outcome(p.hasher.config(), p.salt.bytes(), password@, r),
{
    proof {
        use_type_invariant(&p.salt);
    }
    match argon2_hash(&p.hasher, &p.salt, password) {
        Ok(out) => Ok(out),
        Err(message) => Err(Failure::Hashing(message)),
    }
}

/// Refusing conflicting selectors happens in preparation, so such flags
/// never reach hashing: both `-m` and `-k`, both `-e` and `-r`, or more than
/// one variant selector give a usage error whatever the salt.
pub proof fn lemma_conflicts_are_usage_errors(flags: Flags, salt: Seq<u8>, r: Result<Prepared, Failure>)
    requires
        prepare_outcome(flags, salt, r),
        crate::config::selected_count(flags.i, flags.d, flags.id) > 1
            || (flags.m is Some && flags.k is Some)
            || (flags.e && flags.r),
    ensures
        r matches Err(Failure::Usage(_)),
{
}

/// Hashing is deterministic: for a configuration, salt and password that
/// argon2 accepts, two runs both succeed with the same digest and the same
/// encoded string.
pub proof fn lemma_hashing_twice_agrees(
    c: Config,
    salt: Seq<u8>,
    password: Seq<u8>,
    r1: Result<HashOutput, Failure>,
    r2: Result<HashOutput, Failure>,
)
    requires
        hash_outcome(c, salt, password, r1),
        hash_outcome(c, salt, password, r2),
        hash_succeeds(c, salt, password),
    ensures
        r1 is Ok && r2 is Ok,
        r1->Ok_0.digest@ == r2->Ok_0.digest@,
        r1->Ok_0.encoded@ == r2->Ok_0.encoded@,
{
}

/// The flags of a command line that names only the salt.
pub open spec fn default_flags() -> Flags {
    Flags {
        i: false,
        d: false,
        id: false,
        t: 3,
        m: None,
        k: None,
        p: 1,
        l: 32,
        e: false,
        r: false,
        v: 13,
    }
}

/// Salt `somesalt` and password `password` with the default flags: the
/// configuration is Argon2i, three iterations, 4096 KiB, one lane and 32
/// bytes; hashing succeeds, and the encoded string is
/// `$argon2i$v=19$m=4096,t=3,p=1$c29tZXNhbHQ$` followed by the digest in
/// Base64.
pub proof fn lemma_default_scenario(prep: Result<Prepared, Failure>, r: Result<HashOutput, Failure>)
    requires
        prepare_outcome(default_flags(), "somesalt"@.map_values(|c: char| c as u8), prep),
        prep is Ok ==> hash_outcome(
            prep->Ok_0.hasher.config(),
            prep->Ok_0.salt.bytes(),
            "password"@.map_values(|c: char| c as u8),
            r,
        ),
    ensures
        prep is Ok,
        prep->Ok_0.hasher.config() == (Config {
            variant: Variant::Argon2i,
            iterations: 3,
            memory: MemorySpec::Exponent(12),
            memory_kib: 4096,
            parallelism: 1,
            output_len: 32,
            mode: OutputMode::Full,
        }),
        r is Ok,
        r->Ok_0.digest@.len() == 32,
        r->Ok_0.encoded@ == "$argon2i$v=19$m=4096,t=3,p=1$c29tZXNhbHQ$"@ + b64_unpadded(
            r->Ok_0.digest@,
        ),
{
    reveal_strlit("somesalt");
    reveal_strlit("password");
    reveal_strlit("$argon2i$v=19$m=4096,t=3,p=1$c29tZXNhbHQ$");
    reveal_strlit("ABCDEFGHIJKLMNOPQRSTUVWXYZabcdefghijklmnopqrstuvwxyz0123456789+/");
    reveal_with_fuel(pow2, 13);
    assert(pow2(12) == 4096);
    reveal_with_fuel(decimal, 5);
    assert(decimal(4096) =~= seq!['4', '0', '9', '6']);
    assert(decimal(3) =~= seq!['3']);
    assert(decimal(1) =~= seq!['1']);
    let salt = "somesalt"@.map_values(|c: char| c as u8);
    assert(salt.len() == 8);
    reveal_with_fuel(b64_unpadded, 4);
    assert(b64_unpadded(salt) =~= "c29tZXNhbHQ"@) by {
        reveal_strlit("c29tZXNhbHQ");
        assert(salt =~= seq![115u8, 111u8, 109u8, 101u8, 115u8, 97u8, 108u8, 116u8]);
        assert(b64_alphabet().len() == 64);
    }
    let c = prep->Ok_0.hasher.config();
    assert(c.memory_kib == 4096 && c.iterations == 3 && c.parallelism == 1);
    assert(c.variant == Variant::Argon2i);
    let out = r->Ok_0;
    assert(out.encoded@ == crate::hashing::phc_string(c, salt, out.digest@));
    reveal_strlit("argon2i");
    reveal_strlit("$");
    reveal_strlit("$v=19$m=");
    reveal_strlit(",t=");
    reveal_strlit(",p=");
    assert(out.encoded@ =~= "$argon2i$v=19$m=4096,t=3,p=1$c29tZXNhbHQ$"@ + b64_unpadded(out.digest@));
}

} // verus!
