use vstd::prelude::*;

verus! {

/// The Argon2 variant to hash with.
#[derive(Clone, Copy, PartialEq, Eq, Debug)]
pub enum Variant {
    Argon2i,
    Argon2d,
    Argon2id,
}

/// Where the memory cost came from: a base-two exponent or a KiB count.
#[derive(Clone, Copy, PartialEq, Eq, Debug)]
pub enum MemorySpec {
    Exponent(u32),
    Kib(u32),
}

/// What the tool prints once the hash is computed.
#[derive(Clone, Copy, PartialEq, Eq, Debug)]
pub enum OutputMode {
    Full,
    EncodedOnly,
    RawOnly,
}

/// The flags as the command line gave them, before any group is checked.
/// An absent `m` or `k` is `None`; the numeric flags carry their defaults.
#[derive(Clone, Copy, PartialEq, Eq, Debug)]
pub struct Flags {
    pub i: bool,
    pub d: bool,
    pub id: bool,
    pub t: u32,
    pub m: Option<u32>,
    pub k: Option<u32>,
    pub p: u32,
    pub l: u32,
    pub e: bool,
    pub r: bool,
    pub v: u32,
}

/// A usage error: flags that cannot stand together, or a value that cannot
/// be turned into a memory size.
#[derive(Clone, Copy, PartialEq, Eq, Debug)]
pub enum UsageError {
    ConflictingVariants,
    ConflictingMemory,
    ConflictingOutputModes,
    MemoryExponentTooLarge,
}

/// The resolved configuration of one invocation.
#[derive(Clone, Copy, PartialEq, Eq, Debug)]
pub struct Config {
    pub variant: Variant,
    pub iterations: u32,
    pub memory: MemorySpec,
    pub memory_kib: u32,
    pub parallelism: u32,
    pub output_len: u32,
    pub mode: OutputMode,
}

pub const DEFAULT_ITERATIONS: u32 = 3;
pub const DEFAULT_MEMORY_EXPONENT: u32 = 12;
pub const DEFAULT_PARALLELISM: u32 = 1;
pub const DEFAULT_OUTPUT_LEN: u32 = 32;
pub const DEFAULT_VERSION: u32 = 13;

impl Flags {
    /// The flags of a command line that names only the salt.
    pub fn new() -> (r: Flags)
        ensures
            !r.i && !r.d && !r.id && !r.e && !r.r,
            r.m is None && r.k is None,
            r.t == DEFAULT_ITERATIONS && r.p == DEFAULT_PARALLELISM,
            r.l == DEFAULT_OUTPUT_LEN && r.v == DEFAULT_VERSION,
    {
        Flags {
            i: false,
            d: false,
            id: false,
            t: DEFAULT_ITERATIONS,
            m: None,
            k: None,
            p: DEFAULT_PARALLELISM,
            l: DEFAULT_OUTPUT_LEN,
            e: false,
            r: false,
            v: DEFAULT_VERSION,
        }
    }
}

/// Two to the power `e`.
pub open spec fn pow2(e: nat) -> nat
    decreases e,
{
    if e == 0 {
        1
    } else {
        2 * pow2((e - 1) as nat)
    }
}

pub proof fn lemma_pow2_monotonic(a: nat, b: nat)
    requires
        a <= b,
    ensures
        pow2(a) <= pow2(b),
    decreases b,
{
    if a < b {
        lemma_pow2_monotonic(a, (b - 1) as nat);
    }
}

/// How many of three selectors were given.
pub open spec fn selected_count(a: bool, b: bool, c: bool) -> nat {
    (if a { 1nat } else { 0nat }) + (if b { 1nat } else { 0nat }) + (if c { 1nat } else { 0nat })
}

/// The variant that the selector flags choose; Argon2i when none is given.
pub open spec fn variant_of(f: Flags) -> Variant {
    if f.d {
        Variant::Argon2d
    } else if f.id {
        Variant::Argon2id
    } else {
        Variant::Argon2i
    }
}

/// The authoritative memory source: `k` when given, else the exponent `m`
/// or its default.
pub open spec fn memory_spec_of(f: Flags) -> MemorySpec {
    match f.k {
        Some(k) => MemorySpec::Kib(k),
        None => MemorySpec::Exponent(
            match f.m {
                Some(m) => m,
                None => DEFAULT_MEMORY_EXPONENT,
            },
        ),
    }
}

/// The memory in KiB that a memory source denotes, as a mathematical integer.
pub open spec fn memory_kib_of(s: MemorySpec) -> nat {
    match s {
        MemorySpec::Kib(k) => k as nat,
        MemorySpec::Exponent(e) => pow2(e as nat),
    }
}

pub open spec fn mode_of(f: Flags) -> OutputMode {
    if f.e {
        OutputMode::EncodedOnly
    } else if f.r {
        OutputMode::RawOnly
    } else {
        OutputMode::Full
    }
}

/// What resolving the flags yields. Groups are checked in the order variant,
/// memory, output mode; an exponent whose power of two does not fit in 32
/// bits is refused last. The version flag does not take part: hashing always
/// runs at the one version supported, whatever `v` says.
pub open spec fn resolved(f: Flags) -> Result<Config, UsageError> {
    if selected_count(f.i, f.d, f.id) > 1 {
        Err(UsageError::ConflictingVariants)
    } else if f.m is Some && f.k is Some {
        Err(UsageError::ConflictingMemory)
    } else if f.e && f.r {
        Err(UsageError::ConflictingOutputModes)
    } else if memory_kib_of(memory_spec_of(f)) > u32::MAX {
        Err(UsageError::MemoryExponentTooLarge)
    } else {
        Ok(
            Config {
                variant: variant_of(f),
                iterations: f.t,
                memory: memory_spec_of(f),
                memory_kib: memory_kib_of(memory_spec_of(f)) as u32,
                parallelism: f.p,
                output_len: f.l,
                mode: mode_of(f),
            },
        )
    }
}

/// Two to the power `e` as a `u32`, or `None` when it does not fit.
pub fn pow2_u32(e: u32) -> (r: Option<u32>)
    ensures
        match r {
            Some(v) => v as nat == pow2(e as nat),
            None => pow2(e as nat) > u32::MAX,
        },
{
    if e >= 32 {
        proof {
            lemma_pow2_monotonic(32, e as nat);
            reveal_with_fuel(pow2, 33);
            assert(pow2(32) == 0x1_0000_0000nat);
        }
        return None;
    }
    let mut v: u32 = 1;
    let mut i: u32 = 0;
    while i < e
        invariant
            i <= e < 32,
            v as nat == pow2(i as nat),
        decreases e - i,
    {
        proof {
            lemma_pow2_monotonic((i + 1) as nat, 31);
            reveal_with_fuel(pow2, 32);
            assert(pow2(31) == 0x8000_0000nat);
        }
        v = v * 2;
        i = i + 1;
    }
    Some(v)
}

/// Resolves the flags into a configuration, refusing conflicting selectors
/// before any hashing is attempted.
pub fn resolve_config(f: Flags) -> (r: Result<Config, UsageError>)
    ensures
        r == resolved(f),
        r matches Err(UsageError::ConflictingMemory) <==> (selected_count(f.i, f.d, f.id) <= 1
            && f.m is Some && f.k is Some),
        r matches Err(UsageError::ConflictingOutputModes) <==> (selected_count(f.i, f.d, f.id)
            <= 1 && !(f.m is Some && f.k is Some) && f.e && f.r),
        r matches Err(UsageError::ConflictingVariants) <==> selected_count(f.i, f.d, f.id) > 1,
{
    let n: u32 = (if f.i { 1u32 } else { 0 }) + (if f.d { 1u32 } else { 0 }) + (if f.id { 1u32 } else { 0 });
    if n > 1 {
        return Err(UsageError::ConflictingVariants);
    }
    if f.m.is_some() && f.k.is_some() {
        return Err(UsageError::ConflictingMemory);
    }
    if f.e && f.r {
        return Err(UsageError::ConflictingOutputModes);
    }
    let variant = if f.d {
        Variant::Argon2d
    } else if f.id {
        Variant::Argon2id
    } else {
        Variant::Argon2i
    };
    let memory = match f.k {
        Some(k) => MemorySpec::Kib(k),
        None => MemorySpec::Exponent(
            match f.m {
                Some(m) => m,
                None => DEFAULT_MEMORY_EXPONENT,
            },
        ),
    };
    let memory_kib = match memory {
        MemorySpec::Kib(k) => k,
        MemorySpec::Exponent(e) => match pow2_u32(e) {
            Some(v) => v,
            None => {
                return Err(UsageError::MemoryExponentTooLarge);
            },
        },
    };
    let mode = if f.e {
        OutputMode::EncodedOnly
    } else if f.r {
        OutputMode::RawOnly
    } else {
        OutputMode::Full
    };
    Ok(
        Config {
            variant,
            iterations: f.t,
            memory,
            memory_kib,
            parallelism: f.p,
            output_len: f.l,
            mode,
        },
    )
}

} // verus!
