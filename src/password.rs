use vstd::prelude::*;

verus! {

/// `s` with every CR LF pair turned into a single LF.
pub open spec fn crlf_to_lf(s: Seq<u8>) -> Seq<u8>
    decreases s.len(),
{
    if s.len() == 0 {
        s
    } else if s.len() >= 2 && s[s.len() - 2] == 13u8 && s[s.len() - 1] == 10u8 {
        crlf_to_lf(s.subrange(0, s.len() - 2)).push(10u8)
    } else {
        crlf_to_lf(s.drop_last()).push(s.last())
    }
}

/// The password that piped input gives: its lines, each stripped of its
/// line ending, joined with a single LF. So CR LF becomes LF and one final
/// line ending is dropped.
pub open spec fn piped_password(input: Seq<u8>) -> Seq<u8> {
    let n = crlf_to_lf(input);
    if n.len() > 0 && n.last() == 10u8 {
        n.drop_last()
    } else {
        n
    }
}

/// A character with the Unicode `White_Space` property.
pub open spec fn is_white_space(c: char) -> bool {
    let u = c as u32;
    ||| 0x9 <= u <= 0xD
    ||| u == 0x20
    ||| u == 0x85
    ||| u == 0xA0
    ||| u == 0x1680
    ||| 0x2000 <= u <= 0x200A
    ||| u == 0x2028
    ||| u == 0x2029
    ||| u == 0x202F
    ||| u == 0x205F
    ||| u == 0x3000
}

/// `s` without its leading whitespace.
pub open spec fn trim_start(s: Seq<char>) -> Seq<char>
    decreases s.len(),
{
    if s.len() > 0 && is_white_space(s[0]) {
        trim_start(s.drop_first())
    } else {
        s
    }
}

/// `s` without its trailing whitespace.
pub open spec fn trim_end(s: Seq<char>) -> Seq<char>
    decreases s.len(),
{
    if s.len() > 0 && is_white_space(s.last()) {
        trim_end(s.drop_last())
    } else {
        s
    }
}

/// `s` without leading and trailing whitespace.
pub open spec fn trimmed(s: Seq<char>) -> Seq<char> {
    trim_end(trim_start(s))
}

/// Relies on str::trim: it removes leading and trailing characters with the
/// Unicode `White_Space` property.
#[verifier::external_body]
pub(crate) fn trim_whitespace(s: &str) -> (r: String)
    ensures
        r@ == trimmed(s@),
{
    s.trim().to_string()
}

/// The password typed on a terminal: the line read, whitespace trimmed.
pub fn password_from_line(line: &str) -> (r: String)
    ensures
        r@ == trimmed(line@),
{
    trim_whitespace(line)
}

/// The password that piped input gives, byte for byte.
pub fn password_from_piped(input: &[u8]) -> (r: Vec<u8>)
    ensures
        r@ == piped_password(input@),
{
    let ghost s = input@;
    let mut out: Vec<u8> = Vec::new();
    let mut i: usize = 0;
    while i < input.len()
        invariant
            s == input@,
            i <= s.len(),
            out@ == crlf_to_lf(s.subrange(0, i as int)),
            0 < i < s.len() ==> !(s[i - 1] == 13u8 && s[i as int] == 10u8),
        decreases s.len() - i,
    {
        if input[i] == 13u8 && i + 1 < input.len() && input[i + 1] == 10u8 {
            assert(s.subrange(0, i + 2).subrange(0, i as int) =~= s.subrange(0, i as int));
            out.push(10u8);
            i = i + 2;
        } else {
            assert(s.subrange(0, i + 1).drop_last() =~= s.subrange(0, i as int));
            out.push(input[i]);
            i = i + 1;
        }
    }
    assert(s.subrange(0, s.len() as int) =~= s);
    if out.len() > 0 && out[out.len() - 1] == 10u8 {
        out.pop();
    }
    out
}

} // verus!
