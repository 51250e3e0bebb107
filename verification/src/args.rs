//! The argument resolver: raw invocation tokens (the program name excluded)
//! become a [`Config`], or a [`UsageError`] naming the first token that looks
//! like a flag but is not one of the recognized flags.
//!
//! Recognized flags: `-b` / `--number-nonblank` (number non-blank lines,
//! overrides `-n`) and `-n` / `--number` (number every line).  Every other
//! token of at least two characters that starts with `-` is an unrecognized
//! flag; everything else — including the bare `-`, which names standard
//! input — is a source token.  No source tokens means the single source `-`.

use vstd::prelude::*;

use crate::config::Config;

verus! {

/// Whether a token is the nonblank-numbering flag.
pub open spec fn is_nonblank_flag_token(t: Seq<char>) -> bool {
    t == "-b"@ || t == "--number-nonblank"@
}

/// Whether a token is the all-lines-numbering flag.
pub open spec fn is_number_flag_token(t: Seq<char>) -> bool {
    t == "-n"@ || t == "--number"@
}

/// Whether a token looks like a flag but is not a recognized one.
pub open spec fn is_unknown_flag_token(t: Seq<char>) -> bool {
    &&& t.len() >= 2
    &&& t[0] == '-'
    &&& !is_nonblank_flag_token(t)
    &&& !is_number_flag_token(t)
}

/// Whether a token names a source (a path, or `-` for standard input).
pub open spec fn is_source_token(t: Seq<char>) -> bool {
    &&& !is_nonblank_flag_token(t)
    &&& !is_number_flag_token(t)
    &&& !is_unknown_flag_token(t)
}

/// The source tokens among the arguments, in order.
pub open spec fn source_tokens(args: Seq<String>) -> Seq<Seq<char>>
    decreases args.len(),
{
    if args.len() == 0 {
        Seq::empty()
    } else {
        source_tokens(args.drop_last()) + (if is_source_token(args.last()@) {
            seq![args.last()@]
        } else {
            Seq::<Seq<char>>::empty()
        })
    }
}

/// Whether the nonblank-numbering flag occurs among the arguments.
pub open spec fn has_nonblank_flag(args: Seq<String>) -> bool {
    exists|i: int| 0 <= i < args.len() && is_nonblank_flag_token(#[trigger] args[i]@)
}

/// Whether the all-lines-numbering flag occurs among the arguments.
pub open spec fn has_number_flag(args: Seq<String>) -> bool {
    exists|i: int| 0 <= i < args.len() && is_number_flag_token(#[trigger] args[i]@)
}

/// The message rendered for an unrecognized flag.
pub open spec fn usage_note(token: Seq<char>) -> Seq<char> {
    "Unrecognized flag: "@ + token
}

/// An invalid invocation: a token that looks like a flag but is none of the
/// recognized ones.  The caller renders it as a usage message and exits
/// non-zero; no source is processed.
#[derive(Debug)]
pub struct UsageError {
    /// The offending token.
    pub token: String,
}

impl UsageError {
    /// The human-readable cause, naming the offending token.
    pub fn message(&self) -> (msg: String)
        ensures
            msg@ == usage_note(self.token@),
    {
        let mut msg = String::from_str("Unrecognized flag: ");
        msg.append(self.token.as_str());
        msg
    }
}

/// Whether `t` equals the given literal text.
fn token_is(t: &String, lit: &str) -> (r: bool)
    ensures
        r == (t@ == lit@),
{
    let other = String::from_str(lit);
    t.eq(&other)
}

/// Whether `t` is the nonblank-numbering flag.
fn is_nonblank_flag(t: &String) -> (r: bool)
    ensures
        r == is_nonblank_flag_token(t@),
{
    token_is(t, "-b") || token_is(t, "--number-nonblank")
}

/// Whether `t` is the all-lines-numbering flag.
fn is_number_flag(t: &String) -> (r: bool)
    ensures
        r == is_number_flag_token(t@),
{
    token_is(t, "-n") || token_is(t, "--number")
}

/// Whether `t` looks like a flag but is not a recognized one.
fn is_unknown_flag(t: &String) -> (r: bool)
    ensures
        r == is_unknown_flag_token(t@),
{
    if is_nonblank_flag(t) || is_number_flag(t) {
        false
    } else {
        let n = t.as_str().unicode_len();
        n >= 2 && t.as_str().get_char(0) == '-'
    }
}

/// The argument resolver.  On success, the configuration holds the source
/// tokens in order (or `-` alone when there are none), the nonblank flag as
/// given, and the all-lines flag only where the nonblank flag is absent.  On
/// failure, the error carries the first unrecognized flag; the resolver fails
/// exactly when one occurs.
pub fn parse_args(args: &Vec<String>) -> (r: Result<Config, UsageError>)
    ensures
        match r {
            Ok(c) => {
                &&& forall|i: int|
                    0 <= i < args@.len() ==> !is_unknown_flag_token(#[trigger] args@[i]@)
                &&& c.wf()
                &&& c.number_nonblank_lines == has_nonblank_flag(args@)
                &&& c.number_all_lines == (has_number_flag(args@) && !has_nonblank_flag(args@))
                &&& source_tokens(args@).len() > 0 ==> {
                    &&& c.sources@.len() == source_tokens(args@).len()
                    &&& forall|k: int|
                        0 <= k < c.sources@.len() ==> #[trigger] c.sources@[k]@ == source_tokens(
                            args@,
                        )[k]
                }
                &&& source_tokens(args@).len() == 0 ==> c.sources@.len() == 1 && c.sources@[0]@
                    == "-"@
            },
            Err(e) => exists|i: int|
                {
                    &&& 0 <= i < args@.len()
                    &&& is_unknown_flag_token(#[trigger] args@[i]@)
                    &&& e.token@ == args@[i]@
                    &&& forall|j: int|
                        0 <= j < i ==> !is_unknown_flag_token(#[trigger] args@[j]@)
                },
        },
{
    let mut found_nonblank = false;
    let mut found_number = false;
    let mut positional: Vec<String> = Vec::new();
    let mut i: usize = 0;
    while i < args.len()
        invariant
            i <= args.len(),
            forall|j: int| 0 <= j < i ==> !is_unknown_flag_token(#[trigger] args@[j]@),
            found_nonblank == exists|j: int|
                0 <= j < i && is_nonblank_flag_token(#[trigger] args@[j]@),
            found_number == exists|j: int|
                0 <= j < i && is_number_flag_token(#[trigger] args@[j]@),
            positional@.len() == source_tokens(args@.subrange(0, i as int)).len(),
            forall|k: int|
                0 <= k < positional@.len() ==> #[trigger] positional@[k]@ == source_tokens(
                    args@.subrange(0, i as int),
                )[k],
        decreases args.len() - i,
    {
        proof {
            assert(args@.subrange(0, i + 1 as int).drop_last() =~= args@.subrange(0, i as int));
            assert(args@.subrange(0, i + 1 as int).last() == args@[i as int]);
        }
        let t = &args[i];
        if is_unknown_flag(t) {
            return Err(UsageError { token: t.clone() });
        }
        let nonblank = is_nonblank_flag(t);
        let number = is_number_flag(t);
        if nonblank {
            found_nonblank = true;
        }
        if number {
            found_number = true;
        }
        if !nonblank && !number {
            positional.push(t.clone());
        }
        i = i + 1;
    }
    proof {
        assert(args@.subrange(0, args@.len() as int) =~= args@);
    }
    Ok(Config::new(positional, found_number, found_nonblank))
}

} // verus!
