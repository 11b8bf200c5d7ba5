use argon2_cli::config::{resolve_config, Flags, Variant};
use argon2_cli::harness::{
    judge_trial, Binary, TrialFailure, compare_reports, field_value, parse_line, parse_report, split_lines, trial_args, trial_is_valid,
};
use argon2_cli::password::{password_from_line, password_from_piped};
use argon2_cli::pipeline::{hash, prepare};
use argon2_cli::report::{decimal_string, full_report_text, render, seconds_text, variant_text, Rendered};

#[test]
fn piped_input_joins_lines_with_lf() {
    assert_eq!(password_from_piped(b"password\n"), b"password".to_vec());
    assert_eq!(password_from_piped(b"password"), b"password".to_vec());
    assert_eq!(password_from_piped(b"a\r\nb\r\n"), b"a\nb".to_vec());
    assert_eq!(password_from_piped(b"a\n\nb\n\n"), b"a\n\nb\n".to_vec());
    assert_eq!(password_from_piped(b"a\rb\r"), b"a\rb\r".to_vec());
    assert_eq!(password_from_piped(b"a\r\r\n"), b"a\r".to_vec());
    assert_eq!(password_from_piped(b""), b"".to_vec());
    assert_eq!(password_from_piped(b"\n"), b"".to_vec());
}

#[test]
fn terminal_line_is_trimmed() {
    assert_eq!(password_from_line("  secret \n"), "secret");
    assert_eq!(password_from_line("a b"), "a b");
    assert_eq!(password_from_line(" \t\r\n"), "");
}

#[test]
fn decimal_and_seconds_formatting() {
    assert_eq!(decimal_string(0), "0");
    assert_eq!(decimal_string(4096), "4096");
    assert_eq!(decimal_string(u64::MAX), "18446744073709551615");
    assert_eq!(seconds_text(0), "0.000 seconds\n");
    assert_eq!(seconds_text(499_999), "0.000 seconds\n");
    assert_eq!(seconds_text(500_000), "0.001 seconds\n");
    assert_eq!(seconds_text(12_345_678_901), "12.346 seconds\n");
    assert_eq!(variant_text(Variant::Argon2id), "Argon2id");
}

#[test]
fn full_report_layout() {
    let mut f = Flags::new();
    f.k = Some(64);
    f.p = 2;
    f.t = 1;
    let c = resolve_config(f).unwrap();
    let p = prepare(f, b"saltsalt").unwrap();
    let out = hash(&p, b"pw").unwrap();
    let want = format!(
        "Type:           Argon2i\nIterations:     1\nMemory:         64 KiB\nParallelism:    2\nHash:           {}\nEncoded:        {}\n0.042 seconds\nVerification ok\n",
        hex::encode(&out.digest),
        out.encoded
    );
    assert_eq!(full_report_text(&c, &out, 42_000_000), want);
    assert!(matches!(render(&c, &out, 42_000_000), Rendered::Text(s) if s == want));
    // The hex rendering is two lowercase digits per byte.
    let hex_line = want.lines().nth(4).unwrap();
    assert_eq!(hex_line.len(), "Hash:           ".len() + 64);
    assert!(hex_line["Hash:           ".len()..].chars().all(|ch| ch.is_ascii_digit() || ('a'..='f').contains(&ch)));
}

#[test]
fn report_lines_and_fields() {
    assert_eq!(split_lines("a\nb\n\nc"), vec!["a", "b", "", "c"]);
    assert_eq!(split_lines("a\n"), vec!["a"]);
    assert_eq!(split_lines(""), Vec::<String>::new());
    assert_eq!(parse_line("Memory:   4096 KiB"), Some(("Memory".to_string(), "4096 KiB".to_string())));
    assert_eq!(parse_line("Encoded: $a$b:c"), Some(("Encoded".to_string(), "$a$b:c".to_string())));
    assert_eq!(parse_line("Verification ok"), None);
    let fields = parse_report("X: 1\nno colon\nX: 2\nY:3\n");
    assert_eq!(fields.len(), 3);
    assert_eq!(field_value(&fields, &"X".to_string()), Some("2".to_string()));
    assert_eq!(field_value(&fields, &"Y".to_string()), Some("3".to_string()));
    assert_eq!(field_value(&fields, &"Z".to_string()), None);
}

#[test]
fn comparison_reports_missing_and_differing_fields() {
    let reference = "Type: Argon2i\nIterations: 3\nMemory: 4096 KiB\nParallelism: 1\nHash: ab\nEncoded: $x\n";
    assert!(compare_reports(reference, reference).is_empty());
    let candidate = "Iterations: 3\nMemory: 2048 KiB\nHash: ab\nEncoded: $x\nType: other\n";
    let m = compare_reports(reference, candidate);
    assert_eq!(m.len(), 2);
    assert_eq!(m[0].key, "Memory");
    assert_eq!(m[0].reference, "4096 KiB");
    assert_eq!(m[0].candidate, Some("2048 KiB".to_string()));
    assert_eq!(m[1].key, "Parallelism");
    assert_eq!(m[1].candidate, None);
    // A field that the reference lacks is not compared.
    assert!(compare_reports("Iterations: 3\n", "Iterations: 3\nHash: zz\n").is_empty());
}

#[test]
fn trial_arguments_and_validity() {
    assert_eq!(trial_args(3, 12, 1, Variant::Argon2i), vec!["-i", "-t", "3", "-m", "12", "-p", "1"]);
    assert_eq!(trial_args(5, 6, 4, Variant::Argon2id), vec!["-id", "-t", "5", "-m", "6", "-p", "4"]);
    assert!(trial_is_valid(6, 8));
    assert!(!trial_is_valid(6, 9));
    assert!(trial_is_valid(3, 1));
    assert!(!trial_is_valid(2, 1));
    assert!(trial_is_valid(40, u32::MAX));
    assert!(!trial_is_valid(34, u32::MAX));
}

/// A small deterministic generator for the randomised trials.
fn next(state: &mut u64) -> u64 {
    *state = state.wrapping_mul(6364136223846793005).wrapping_add(1442695040888963407);
    *state >> 33
}

fn random_string(state: &mut u64, len: usize) -> String {
    const CHARSET: &[u8] = b"ABCDEFGHIJKLMNOPQRSTUVWXYZabcdefghijklmnopqrstuvwxyz0123456789";
    (0..len).map(|_| CHARSET[(next(state) % CHARSET.len() as u64) as usize] as char).collect()
}

#[test]
fn randomised_trials_agree_field_by_field() {
    let mut state: u64 = 0x5eed;
    let variants = [Variant::Argon2i, Variant::Argon2d, Variant::Argon2id];
    for trial in 0..21u64 {
        let t = 1 + (next(&mut state) % 3) as u32;
        let p = 1 + (next(&mut state) % 4) as u32;
        let m = 6 + (next(&mut state) % 3) as u32;
        let v = variants[(trial % 3) as usize];
        assert!(trial_is_valid(m, p));
        let args = trial_args(t, m, p, v);
        let mut f = Flags::new();
        f.t = t;
        f.m = Some(m);
        f.p = p;
        f.i = args[0] == "-i";
        f.d = args[0] == "-d";
        f.id = args[0] == "-id";
        let salt = random_string(&mut state, 8);
        let password = random_string(&mut state, 12);
        let c = resolve_config(f).unwrap();
        let p1 = prepare(f, salt.as_bytes()).unwrap();
        let p2 = prepare(f, salt.as_bytes()).unwrap();
        let a = hash(&p1, password.as_bytes()).unwrap();
        let b = hash(&p2, password.as_bytes()).unwrap();
        let ra = full_report_text(&c, &a, 1);
        let rb = full_report_text(&c, &b, 2_000_000);
        let mismatches = compare_reports(&ra, &rb);
        assert!(mismatches.is_empty(), "trial failed: t={}, m={}, p={}, var={:?}", t, m, p, v);
        let fields = parse_report(&ra);
        assert_eq!(field_value(&fields, &"Memory".to_string()), Some(format!("{} KiB", 1u32 << m)));
        assert_eq!(field_value(&fields, &"Parallelism".to_string()), Some(p.to_string()));
    }
}

#[test]
fn trial_judgement_separates_execution_from_mismatch() {
    let good = "Iterations: 3\nHash: ab\n".to_string();
    let bad = "Iterations: 4\nHash: ab\n".to_string();
    assert!(judge_trial(Ok(good.clone()), Ok(good.clone())).is_ok());
    assert!(matches!(
        judge_trial(Err("no such file".to_string()), Ok(good.clone())),
        Err(TrialFailure::Execution(Binary::Reference, m)) if m == "no such file"
    ));
    assert!(matches!(
        judge_trial(Ok(good.clone()), Err("exit 1".to_string())),
        Err(TrialFailure::Execution(Binary::Candidate, _))
    ));
    match judge_trial(Ok(good), Ok(bad)) {
        Err(TrialFailure::Mismatch(v)) => {
            assert_eq!(v.len(), 1);
            assert_eq!(v[0].key, "Iterations");
            assert_eq!(v[0].reference, "3");
            assert_eq!(v[0].candidate, Some("4".to_string()));
        }
        other => panic!("unexpected {:?}", other),
    }
}

#[test]
fn trimming_follows_unicode_white_space() {
    assert_eq!(password_from_line("\u{3000}\u{85}pass word\u{a0}\u{2009}"), "pass word");
    assert_eq!(password_from_line("\u{200b}x"), "\u{200b}x");
    assert_eq!(parse_line("  Hash \u{3000}:\t ab \r"), Some(("Hash".to_string(), "ab".to_string())));
}
