use vstd::prelude::*;

verus! {

/// The token that a user writes to select Argon2id in short form.
pub open spec fn short_id_token() -> Seq<char> {
    seq!['-', 'i', 'd']
}

/// The long form that the parser understands for Argon2id.
pub open spec fn long_id_token() -> Seq<char> {
    seq!['-', '-', 'i', 'd']
}

/// One token after normalisation: `-id` becomes `--id`, all else is kept.
pub open spec fn normalized_token(tok: Seq<char>) -> Seq<char> {
    if tok == short_id_token() {
        long_id_token()
    } else {
        tok
    }
}

/// The whole argument vector after normalisation, token by token.
pub open spec fn normalized(args: Seq<Seq<char>>) -> Seq<Seq<char>> {
    args.map_values(|tok: Seq<char>| normalized_token(tok))
}

/// Rewrites every standalone `-id` token into `--id`, so that a parser which
/// clusters short flags does not read it as `-i -d`. Order and all other
/// tokens are kept.
pub fn normalize_args(args: Vec<String>) -> (r: Vec<String>)
    ensures
        r@.len() == args@.len(),
        forall|j: int| 0 <= j < args@.len() ==> #[trigger] r@[j]@ == normalized_token(args@[j]@),
{
    let short = String::from_str("-id");
    proof {
        reveal_strlit("-id");
        reveal_strlit("--id");
    }
    assert(short@ == short_id_token());
    let mut out: Vec<String> = Vec::new();
    let mut i: usize = 0;
    while i < args.len()
        invariant
            i <= args@.len(),
            out@.len() == i,
            short@ == short_id_token(),
            forall|j: int| 0 <= j < i ==> #[trigger] out@[j]@ == normalized_token(args@[j]@),
        decreases args@.len() - i,
    {
        if args[i] == short {
            let long = String::from_str("--id");
            proof {
                reveal_strlit("--id");
            }
            assert(long@ == long_id_token());
            out.push(long);
        } else {
            out.push(args[i].clone());
        }
        i = i + 1;
    }
    out
}

/// Writing `-id` or `--id` at a position gives the same normalised vector.
pub proof fn lemma_short_and_long_id_agree(args: Seq<Seq<char>>, i: int)
    requires
        0 <= i < args.len(),
    ensures
        normalized(args.update(i, short_id_token())) == normalized(args.update(i, long_id_token())),
{
    let a = normalized(args.update(i, short_id_token()));
    let b = normalized(args.update(i, long_id_token()));
    assert(long_id_token() != short_id_token()) by {
        assert(long_id_token().len() != short_id_token().len());
    }
    assert(a =~= b);
}

} // verus!
