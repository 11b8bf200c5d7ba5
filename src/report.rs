use vstd::prelude::*;
use crate::config::{Config, OutputMode, Variant};
use crate::hashing::{is_hash_of, phc_string, HashOutput};

verus! {

/// The decimal digit `d`, for `d < 10`.
pub open spec fn digit_char(d: nat) -> char {
    if d == 0 { '0' }
    else if d == 1 { '1' }
    else if d == 2 { '2' }
    else if d == 3 { '3' }
    else if d == 4 { '4' }
    else if d == 5 { '5' }
    else if d == 6 { '6' }
    else if d == 7 { '7' }
    else if d == 8 { '8' }
    else { '9' }
}

/// The lowercase hexadecimal digit `d`, for `d < 16`.
pub open spec fn hex_char(d: nat) -> char {
    if d < 10 { digit_char(d) }
    else if d == 10 { 'a' }
    else if d == 11 { 'b' }
    else if d == 12 { 'c' }
    else if d == 13 { 'd' }
    else if d == 14 { 'e' }
    else { 'f' }
}

/// `n` in decimal, without leading zeros.
pub open spec fn decimal(n: nat) -> Seq<char>
    decreases n,
{
    if n < 10 {
        seq![digit_char(n)]
    } else {
        decimal(n / 10).push(digit_char(n % 10))
    }
}

/// `n < 1000` in exactly three decimal digits.
pub open spec fn three_digits(n: nat) -> Seq<char> {
    seq![digit_char(n / 100), digit_char((n / 10) % 10), digit_char(n % 10)]
}

/// Each byte as two lowercase hexadecimal digits, high nibble first.
pub open spec fn hex_of(b: Seq<u8>) -> Seq<char>
    decreases b.len(),
{
    if b.len() == 0 {
        Seq::empty()
    } else {
        hex_of(b.drop_last()) + seq![
            hex_char((b.last() / 16) as nat),
            hex_char((b.last() % 16) as nat),
        ]
    }
}

pub open spec fn variant_name(v: Variant) -> Seq<char> {
    match v {
        Variant::Argon2i => "Argon2i"@,
        Variant::Argon2d => "Argon2d"@,
        Variant::Argon2id => "Argon2id"@,
    }
}

/// The elapsed-time line: seconds with millisecond precision.
pub open spec fn seconds_line(ms: nat) -> Seq<char> {
    decimal(ms / 1000) + "."@ + three_digits(ms % 1000) + " seconds\n"@
}

/// The line of the full report that carries the encoded string.
pub open spec fn encoded_line(encoded: Seq<char>) -> Seq<char> {
    "Encoded:        "@ + encoded + "\n"@
}

/// The lines of the full report above the encoded string.
pub open spec fn report_head(c: Config, digest: Seq<u8>) -> Seq<char> {
    "Type:           "@ + variant_name(c.variant) + "\n"@
    + "Iterations:     "@ + decimal(c.iterations as nat) + "\n"@
    + "Memory:         "@ + decimal(c.memory_kib as nat) + " KiB\n"@
    + "Parallelism:    "@ + decimal(c.parallelism as nat) + "\n"@
    + "Hash:           "@ + hex_of(digest) + "\n"@
}

/// The lines of the full report below the encoded string.
pub open spec fn report_tail(ms: nat) -> Seq<char> {
    seconds_line(ms) + "Verification ok\n"@
}

/// The full report, in its fixed field order.
pub open spec fn full_report(c: Config, digest: Seq<u8>, encoded: Seq<char>, ms: nat) -> Seq<char> {
    report_head(c, digest) + encoded_line(encoded) + report_tail(ms)
}

/// What the encoded-only mode prints.
pub open spec fn encoded_only(encoded: Seq<char>) -> Seq<char> {
    encoded + "\n"@
}

/// Nanoseconds rounded to the nearest millisecond.
pub open spec fn millis_of(nanos: nat) -> nat {
    (nanos + 500_000) / 1_000_000
}

/// Rendered output: text for the full and encoded-only modes, the bare
/// digest for raw mode.
#[derive(Debug)]
pub enum Rendered {
    Text(String),
    Bytes(Vec<u8>),
}

/// Relies on hex::encode: two lowercase digits per byte, from the table
/// `0123456789abcdef`, high nibble first.
#[verifier::external_body]
fn hex_encode(b: &[u8]) -> (r: String)
    ensures
        r@ == hex_of(b@),
{
    hex::encode(b)
}

/// The single digit `d` as a string.
fn digit_str(d: u64) -> (r: &'static str)
    requires
        d < 10,
    ensures
        r@ == seq![digit_char(d as nat)],
{
    if d == 0 { proof { reveal_strlit("0"); } "0" }
    else if d == 1 { proof { reveal_strlit("1"); } "1" }
    else if d == 2 { proof { reveal_strlit("2"); } "2" }
    else if d == 3 { proof { reveal_strlit("3"); } "3" }
    else if d == 4 { proof { reveal_strlit("4"); } "4" }
    else if d == 5 { proof { reveal_strlit("5"); } "5" }
    else if d == 6 { proof { reveal_strlit("6"); } "6" }
    else if d == 7 { proof { reveal_strlit("7"); } "7" }
    else if d == 8 { proof { reveal_strlit("8"); } "8" }
    else { proof { reveal_strlit("9"); } "9" }
}

/// Appends `n` in decimal to `s`.
pub fn push_decimal(s: &mut String, n: u64)
    ensures
        final(s)@ == old(s)@ + decimal(n as nat),
    decreases n,
{
    if n < 10 {
        s.append(digit_str(n));
    } else {
        push_decimal(s, n / 10);
        s.append(digit_str(n % 10));
        assert(decimal(n as nat) == decimal((n / 10) as nat).push(digit_char((n % 10) as nat)));
        assert(final(s)@ =~= old(s)@ + decimal(n as nat));
    }
}

/// `n` in decimal.
pub fn decimal_string(n: u64) -> (r: String)
    ensures
        r@ == decimal(n as nat),
{
    let mut s = String::new();
    push_decimal(&mut s, n);
    assert(s@ =~= decimal(n as nat));
    s
}

/// The elapsed-time line for `nanos` nanoseconds.
pub fn seconds_text(nanos: u64) -> (r: String)
    ensures
        r@ == seconds_line(millis_of(nanos as nat)),
{
    let ms: u64 = nanos / 1_000_000 + (if nanos % 1_000_000 >= 500_000 { 1u64 } else { 0u64 });
    assert(ms as nat == millis_of(nanos as nat));
    let mut s = String::new();
    push_decimal(&mut s, ms / 1000);
    s.append(".");
    let frac: u64 = ms % 1000;
    s.append(digit_str(frac / 100));
    s.append(digit_str((frac / 10) % 10));
    s.append(digit_str(frac % 10));
    s.append(" seconds\n");
    assert(s@ =~= seconds_line(millis_of(nanos as nat)));
    s
}

/// The name of a variant as the report prints it.
pub fn variant_text(v: Variant) -> (r: &'static str)
    ensures
        r@ == variant_name(v),
{
    match v {
        Variant::Argon2i => "Argon2i",
        Variant::Argon2d => "Argon2d",
        Variant::Argon2id => "Argon2id",
    }
}

/// The full report for a configuration, a hash and the time it took.
pub fn full_report_text(c: &Config, out: &HashOutput, nanos: u64) -> (r: String)
    ensures
        r@ == full_report(*c, out.digest@, out.encoded@, millis_of(nanos as nat)),
{
    let mut s = String::new();
    s.append("Type:           ");
    s.append(variant_text(c.variant));
    s.append("\n");
    s.append("Iterations:     ");
    push_decimal(&mut s, c.iterations as u64);
    s.append("\n");
    s.append("Memory:         ");
    push_decimal(&mut s, c.memory_kib as u64);
    s.append(" KiB\n");
    s.append("Parallelism:    ");
    push_decimal(&mut s, c.parallelism as u64);
    s.append("\n");
    s.append("Hash:           ");
    let hex = hex_encode(out.digest.as_slice());
    s.append(hex.as_str());
    s.append("\n");
    assert(s@ =~= report_head(*c, out.digest@));
    s.append("Encoded:        ");
    s.append(out.encoded.as_str());
    s.append("\n");
    let secs = seconds_text(nanos);
    s.append(secs.as_str());
    s.append("Verification ok\n");
    assert(s@ =~= full_report(*c, out.digest@, out.encoded@, millis_of(nanos as nat)));
    s
}

/// Renders a hash in the configured output mode.
pub fn render(c: &Config, out: &HashOutput, nanos: u64) -> (r: Rendered)
    ensures
        c.mode == OutputMode::Full ==> (r matches Rendered::Text(s) && s@ == full_report(
            *c,
            out.digest@,
            out.encoded@,
            millis_of(nanos as nat),
        )),
        c.mode == OutputMode::EncodedOnly ==> (r matches Rendered::Text(s) && s@ == encoded_only(
            out.encoded@,
        )),
        c.mode == OutputMode::RawOnly ==> (r matches Rendered::Bytes(b) && b@ == out.digest@),
{
    match c.mode {
        OutputMode::Full => Rendered::Text(full_report_text(c, out, nanos)),
        OutputMode::EncodedOnly => {
            let mut s = out.encoded.clone();
            s.append("\n");
            Rendered::Text(s)
        },
        OutputMode::RawOnly => Rendered::Bytes(out.digest.clone()),
    }
}

/// The encoded-only output is the value of the full report's `Encoded`
/// field, newline-terminated. For a hash of a configuration, that string is
/// the PHC string of the configuration's variant and costs, the salt and the
/// report's digest: decoding it gives what the full report shows.
pub proof fn lemma_encoded_only_matches_full(
    c: Config,
    salt: Seq<u8>,
    password: Seq<u8>,
    out: HashOutput,
    ms: nat,
)
    requires
        is_hash_of(out, c, salt, password),
    ensures
        full_report(c, out.digest@, out.encoded@, ms) == report_head(c, out.digest@)
            + "Encoded:        "@ + encoded_only(out.encoded@) + report_tail(ms),
        encoded_only(out.encoded@) == phc_string(c, salt, out.digest@) + "\n"@,
{
    assert(full_report(c, out.digest@, out.encoded@, ms) =~= report_head(c, out.digest@)
        + "Encoded:        "@ + encoded_only(out.encoded@) + report_tail(ms));
}

} // verus!
