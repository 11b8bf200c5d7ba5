use vstd::prelude::*;
use crate::config::{pow2, Variant};
use crate::password::trimmed;
use crate::report::{decimal, push_decimal};

verus! {

/// Index of the first `c` in `s`, or `s.len()` when there is none.
pub open spec fn first_index(s: Seq<char>, c: char) -> nat
    decreases s.len(),
{
    if s.len() == 0 {
        0
    } else if s[0] == c {
        0
    } else {
        1 + first_index(s.drop_first(), c)
    }
}

pub proof fn lemma_first_index(s: Seq<char>, c: char, i: int)
    requires
        0 <= i <= s.len(),
        forall|j: int| 0 <= j < i ==> s[j] != c,
        i == s.len() || s[i] == c,
    ensures
        first_index(s, c) == i,
    decreases s.len(),
{
    if s.len() > 0 && i > 0 {
        lemma_first_index(s.drop_first(), c, i - 1);
    }
}

/// The lines of `s`, split at each LF; a final LF opens no further line.
pub open spec fn lines_of(s: Seq<char>) -> Seq<Seq<char>>
    decreases s.len(),
{
    if s.len() == 0 {
        Seq::empty()
    } else {
        let j = first_index(s, '\n') as int;
        if j >= s.len() {
            seq![s]
        } else {
            seq![s.subrange(0, j)] + lines_of(s.subrange(j + 1, s.len() as int))
        }
    }
}

proof fn lemma_first_index_bound(s: Seq<char>, c: char)
    ensures
        first_index(s, c) <= s.len(),
        first_index(s, c) < s.len() ==> s[first_index(s, c) as int] == c,
        forall|j: int| 0 <= j < first_index(s, c) ==> s[j] != c,
    decreases s.len(),
{
    if s.len() > 0 && s[0] != c {
        lemma_first_index_bound(s.drop_first(), c);
        assert forall|j: int| 0 <= j < first_index(s, c) implies s[j] != c by {
            if j > 0 {
                assert(s[j] == s.drop_first()[j - 1]);
            }
        }
    }
}

/// Index of the first `c` in `s` from position `from` on, or its length.
fn find_char(s: &str, n: usize, from: usize, c: char) -> (r: usize)
    requires
        n == s@.len(),
        from <= n,
    ensures
        from <= r <= n,
        r == from + first_index(s@.subrange(from as int, n as int), c),
{
    let mut i = from;
    while i < n && s.get_char(i) != c
        invariant
            n == s@.len(),
            from <= i <= n,
            forall|j: int| from <= j < i ==> s@[j] != c,
        decreases n - i,
    {
        i = i + 1;
    }
    proof {
        let t = s@.subrange(from as int, n as int);
        lemma_first_index(t, c, i - from);
    }
    i
}

/// Splits `s` into lines at each LF.
pub fn split_lines(s: &str) -> (r: Vec<String>)
    ensures
        r@.len() == lines_of(s@).len(),
        forall|k: int| 0 <= k < r@.len() ==> #[trigger] r@[k]@ == lines_of(s@)[k],
{
    let n = s.unicode_len();
    let mut out: Vec<String> = Vec::new();
    let mut start: usize = 0;
    let ghost done: Seq<Seq<char>> = Seq::empty();
    assert(s@.subrange(0, n as int) =~= s@);
    assert(done + lines_of(s@) =~= lines_of(s@));
    while start < n
        invariant
            n == s@.len(),
            start <= n,
            out@.len() == done.len(),
            forall|k: int| 0 <= k < out@.len() ==> #[trigger] out@[k]@ == done[k],
            done + lines_of(s@.subrange(start as int, n as int)) == lines_of(s@),
        decreases n - start,
    {
        let rest = Ghost(s@.subrange(start as int, n as int));
        let j = find_char(s, n, start, '\n');
        proof {
            lemma_first_index_bound(rest@, '\n');
        }
        let line = String::from_str(s.substring_char(start, j));
        assert(line@ == rest@.subrange(0, (j - start) as int));
        proof {
            if j < n {
                assert(rest@.subrange((j - start) + 1, rest@.len() as int) =~= s@.subrange(
                    j + 1,
                    n as int,
                ));
            } else {
                assert(rest@.subrange(0, (j - start) as int) =~= rest@);
            }
            done = done.push(line@);
        }
        out.push(line);
        if j < n {
            start = j + 1;
        } else {
            start = n;
            assert(lines_of(s@.subrange(n as int, n as int)) =~= Seq::<Seq<char>>::empty());
        }
    }
    assert(lines_of(s@.subrange(start as int, n as int)) =~= Seq::<Seq<char>>::empty());
    assert(done =~= lines_of(s@));
    out
}

/// A report line split at its first colon, both sides trimmed; `None` for a
/// line without a colon.
pub open spec fn field_of(line: Seq<char>) -> Option<(Seq<char>, Seq<char>)> {
    let j = first_index(line, ':') as int;
    if j >= line.len() {
        None
    } else {
        Some((trimmed(line.subrange(0, j)), trimmed(line.subrange(j + 1, line.len() as int))))
    }
}

/// Splits one report line into its label and value.
pub fn parse_line(line: &str) -> (r: Option<(String, String)>)
    ensures
        match field_of(line@) {
            None => r is None,
            Some((k, v)) => r matches Some((a, b)) && a@ == k && b@ == v,
        },
{
    let n = line.unicode_len();
    let j = find_char(line, n, 0, ':');
    assert(line@.subrange(0, n as int) =~= line@);
    if j >= n {
        return None;
    }
    let key = crate::password::trim_whitespace(line.substring_char(0, j));
    let value = crate::password::trim_whitespace(line.substring_char(j + 1, n));
    Some((key, value))
}

/// The fields of a whole report, in line order; lines without a colon are
/// skipped.
pub open spec fn fields_of(lines: Seq<Seq<char>>) -> Seq<(Seq<char>, Seq<char>)>
    decreases lines.len(),
{
    if lines.len() == 0 {
        Seq::empty()
    } else {
        let rest = fields_of(lines.drop_last());
        match field_of(lines.last()) {
            Some(f) => rest.push(f),
            None => rest,
        }
    }
}

/// Parses a full report into its labelled fields.
pub fn parse_report(output: &str) -> (r: Vec<(String, String)>)
    ensures
        field_views(r@) == fields_of(lines_of(output@)),
{
    let lines = split_lines(output);
    let ghost ls = lines_of(output@);
    let mut out: Vec<(String, String)> = Vec::new();
    let mut i: usize = 0;
    while i < lines.len()
        invariant
            lines@.len() == ls.len(),
            forall|k: int| 0 <= k < lines@.len() ==> #[trigger] lines@[k]@ == ls[k],
            i <= lines@.len(),
            out@.len() == fields_of(ls.subrange(0, i as int)).len(),
            forall|k: int| 0 <= k < out@.len() ==> (#[trigger] out@[k]).0@ == fields_of(
                ls.subrange(0, i as int),
            )[k].0 && out@[k].1@ == fields_of(ls.subrange(0, i as int))[k].1,
        decreases lines@.len() - i,
    {
        let parsed = parse_line(lines[i].as_str());
        assert(ls.subrange(0, i + 1).drop_last() =~= ls.subrange(0, i as int));
        assert(ls.subrange(0, i + 1).last() == lines@[i as int]@);
        match parsed {
            Some(f) => {
                out.push(f);
            },
            None => {},
        }
        i = i + 1;
    }
    assert(ls.subrange(0, i as int) =~= ls);
    assert(field_views(out@) =~= fields_of(ls));
    out
}

/// The label and value of each parsed field, as character sequences.
pub open spec fn field_views(v: Seq<(String, String)>) -> Seq<(Seq<char>, Seq<char>)> {
    v.map_values(|f: (String, String)| (f.0@, f.1@))
}

/// The value of the last field labelled `key`: a later line replaces an
/// earlier one with the same label.
pub open spec fn lookup(fields: Seq<(Seq<char>, Seq<char>)>, key: Seq<char>) -> Option<Seq<char>>
    decreases fields.len(),
{
    if fields.len() == 0 {
        None
    } else if fields.last().0 == key {
        Some(fields.last().1)
    } else {
        lookup(fields.drop_last(), key)
    }
}

/// Looks up the value of the field labelled `key`.
pub fn field_value(fields: &Vec<(String, String)>, key: &String) -> (r: Option<String>)
    ensures
        match lookup(field_views(fields@), key@) {
            None => r is None,
            Some(v) => r matches Some(x) && x@ == v,
        },
{
    let ghost fv = field_views(fields@);
    assert(fv.subrange(0, fields@.len() as int) =~= fv);
    let mut i: usize = fields.len();
    while i > 0
        invariant
            i <= fields@.len(),
            fv == field_views(fields@),
            lookup(fv, key@) == lookup(fv.subrange(0, i as int), key@),
        decreases i,
    {
        let ghost pre = fv.subrange(0, i as int);
        assert(pre.drop_last() =~= fv.subrange(0, i - 1));
        assert(pre.last() == (fields@[i - 1].0@, fields@[i - 1].1@));
        if fields[i - 1].0 == *key {
            return Some(fields[i - 1].1.clone());
        }
        i = i - 1;
    }
    assert(fv.subrange(0, 0) =~= Seq::<(Seq<char>, Seq<char>)>::empty());
    None
}

/// A field on which the candidate report departs from the reference one:
/// its label, the reference value, and the candidate's (`None` when absent).
#[derive(Debug)]
pub struct Mismatch {
    pub key: String,
    pub reference: String,
    pub candidate: Option<String>,
}

pub open spec fn mismatch_view(m: Mismatch) -> (Seq<char>, Seq<char>, Option<Seq<char>>) {
    (
        m.key@,
        m.reference@,
        match m.candidate {
            Some(c) => Some(c@),
            None => None,
        },
    )
}

/// The labels compared between two full reports.
pub open spec fn compared_keys() -> Seq<Seq<char>> {
    seq!["Iterations"@, "Memory"@, "Parallelism"@, "Hash"@, "Encoded"@]
}

/// The mismatches over `keys`, in key order. A key that the reference lacks
/// is not compared.
pub open spec fn mismatches(
    refs: Seq<(Seq<char>, Seq<char>)>,
    cands: Seq<(Seq<char>, Seq<char>)>,
    keys: Seq<Seq<char>>,
) -> Seq<(Seq<char>, Seq<char>, Option<Seq<char>>)>
    decreases keys.len(),
{
    if keys.len() == 0 {
        Seq::empty()
    } else {
        let rest = mismatches(refs, cands, keys.drop_last());
        let k = keys.last();
        match lookup(refs, k) {
            None => rest,
            Some(rv) => match lookup(cands, k) {
                None => rest.push((k, rv, None)),
                Some(cv) => if cv == rv {
                    rest
                } else {
                    rest.push((k, rv, Some(cv)))
                },
            },
        }
    }
}

/// Compares a candidate full report with a reference one on the iteration
/// count, memory, parallelism, hexadecimal hash and encoded string. The
/// result is empty exactly when the two agree.
pub fn compare_reports(reference: &str, candidate: &str) -> (r: Vec<Mismatch>)
    ensures
        r@.map_values(|m: Mismatch| mismatch_view(m)) == mismatches(
            fields_of(lines_of(reference@)),
            fields_of(lines_of(candidate@)),
            compared_keys(),
        ),
{
    let refs = parse_report(reference);
    let cands = parse_report(candidate);
    let ghost rv = fields_of(lines_of(reference@));
    let ghost cv = fields_of(lines_of(candidate@));
    let mut keys: Vec<String> = Vec::new();
    keys.push(String::from_str("Iterations"));
    keys.push(String::from_str("Memory"));
    keys.push(String::from_str("Parallelism"));
    keys.push(String::from_str("Hash"));
    keys.push(String::from_str("Encoded"));
    let ghost kv = compared_keys();
    assert(keys@.len() == kv.len());
    assert(forall|k: int| 0 <= k < kv.len() ==> #[trigger] keys@[k]@ == kv[k]);
    let mut out: Vec<Mismatch> = Vec::new();
    let mut i: usize = 0;
    while i < keys.len()
        invariant
            field_views(refs@) == rv,
            field_views(cands@) == cv,
            keys@.len() == kv.len(),
            forall|k: int| 0 <= k < kv.len() ==> #[trigger] keys@[k]@ == kv[k],
            i <= keys@.len(),
            out@.map_values(|m: Mismatch| mismatch_view(m)) == mismatches(rv, cv, kv.subrange(0, i as int)),
        decreases keys@.len() - i,
    {
        let ghost pre = kv.subrange(0, i + 1);
        assert(pre.drop_last() =~= kv.subrange(0, i as int));
        let ghost before = out@;
        match field_value(&refs, &keys[i]) {
            None => {},
            Some(r) => match field_value(&cands, &keys[i]) {
                None => {
                    out.push(Mismatch { key: keys[i].clone(), reference: r, candidate: None });
                    assert(out@.map_values(|m: Mismatch| mismatch_view(m)) =~= before.map_values(
                        |m: Mismatch| mismatch_view(m),
                    ).push(mismatch_view(out@.last())));
                },
                Some(c) => {
                    if c != r {
                        out.push(Mismatch { key: keys[i].clone(), reference: r, candidate: Some(c) });
                        assert(out@.map_values(|m: Mismatch| mismatch_view(m)) =~= before.map_values(
                            |m: Mismatch| mismatch_view(m),
                        ).push(mismatch_view(out@.last())));
                    }
                },
            },
        }
        i = i + 1;
    }
    assert(kv.subrange(0, i as int) =~= kv);
    out
}

/// Which of the two runs of a trial could not be executed.
#[derive(Clone, Copy, PartialEq, Eq, Debug)]
pub enum Binary {
    Reference,
    Candidate,
}

/// Why a trial failed: a binary did not run to success (an environment or
/// build problem), or both ran and their fields differ (a regression).
#[derive(Debug)]
pub enum TrialFailure {
    Execution(Binary, String),
    Mismatch(Vec<Mismatch>),
}

/// Judges one trial from the outcomes of the reference run and the
/// candidate run: each is the captured standard output, or the error with
/// which the binary failed to spawn or exited.
pub fn judge_trial(reference: Result<String, String>, candidate: Result<String, String>) -> (r: Result<
    (),
    TrialFailure,
>)
    ensures
        match (reference, candidate) {
            (Err(e), _) => r matches Err(TrialFailure::Execution(Binary::Reference, m)) && m@ == e@,
            (Ok(_), Err(e)) => r matches Err(TrialFailure::Execution(Binary::Candidate, m)) && m@
                == e@,
            (Ok(a), Ok(b)) => {
                let ms = mismatches(
                    fields_of(lines_of(a@)),
                    fields_of(lines_of(b@)),
                    compared_keys(),
                );
                &&& ms.len() == 0 ==> r is Ok
                &&& ms.len() > 0 ==> (r matches Err(TrialFailure::Mismatch(v)) && v@.map_values(
                    |m: Mismatch| mismatch_view(m),
                ) == ms)
            },
        },
{
    let ref_out = match reference {
        Ok(o) => o,
        Err(e) => {
            return Err(TrialFailure::Execution(Binary::Reference, e));
        },
    };
    let cand_out = match candidate {
        Ok(o) => o,
        Err(e) => {
            return Err(TrialFailure::Execution(Binary::Candidate, e));
        },
    };
    let found = compare_reports(ref_out.as_str(), cand_out.as_str());
    if found.len() == 0 {
        Ok(())
    } else {
        Err(TrialFailure::Mismatch(found))
    }
}

/// The command-line flag that selects a variant.
pub open spec fn variant_flag(v: Variant) -> Seq<char> {
    match v {
        Variant::Argon2i => "-i"@,
        Variant::Argon2d => "-d"@,
        Variant::Argon2id => "-id"@,
    }
}

/// The arguments (after the salt) of one comparison run.
pub open spec fn trial_arguments(t: u32, m: u32, p: u32, v: Variant) -> Seq<Seq<char>> {
    seq![
        variant_flag(v),
        "-t"@,
        decimal(t as nat),
        "-m"@,
        decimal(m as nat),
        "-p"@,
        decimal(p as nat),
    ]
}

/// Builds the arguments (after the salt) of one comparison run.
pub fn trial_args(t: u32, m: u32, p: u32, v: Variant) -> (r: Vec<String>)
    ensures
        r@.len() == 7,
        forall|k: int| 0 <= k < 7 ==> #[trigger] r@[k]@ == trial_arguments(t, m, p, v)[k],
{
    let flag = match v {
        Variant::Argon2i => "-i",
        Variant::Argon2d => "-d",
        Variant::Argon2id => "-id",
    };
    let mut r: Vec<String> = Vec::new();
    r.push(String::from_str(flag));
    r.push(String::from_str("-t"));
    r.push(crate::report::decimal_string(t as u64));
    r.push(String::from_str("-m"));
    r.push(crate::report::decimal_string(m as u64));
    r.push(String::from_str("-p"));
    r.push(crate::report::decimal_string(p as u64));
    r
}

/// A trial is only drawn where memory `2^m` KiB covers eight KiB per lane.
pub fn trial_is_valid(m: u32, p: u32) -> (r: bool)
    ensures
        r == (pow2(m as nat) >= 8 * (p as nat)),
{
    if m >= 35 {
        proof {
            crate::config::lemma_pow2_monotonic(35, m as nat);
            reveal_with_fuel(pow2, 36);
        }
        return true;
    }
    let mut kib: u64 = 1;
    let mut i: u32 = 0;
    while i < m
        invariant
            i <= m < 35,
            kib as nat == pow2(i as nat),
        decreases m - i,
    {
        proof {
            crate::config::lemma_pow2_monotonic((i + 1) as nat, 34);
            reveal_with_fuel(pow2, 35);
        }
        kib = kib * 2;
        i = i + 1;
    }
    kib >= 8 * (p as u64)
}

} // verus!
