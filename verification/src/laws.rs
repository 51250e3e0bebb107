//! The library's laws: how the emitted output relates to the lines that were
//! read, stated over the emitter's model and proved for every input.

use vstd::prelude::*;

use crate::args::has_nonblank_flag;
use crate::args::has_number_flag;
use crate::args::is_nonblank_flag_token;
use crate::args::is_number_flag_token;
use crate::args::is_source_token;
use crate::args::is_unknown_flag_token;
use crate::args::source_tokens;
use crate::emit::LineRead;
use crate::emit::SourceRead;
use crate::emit::numbered_count;
use crate::emit::ok_lines;
use crate::emit::one_source_output;
use crate::emit::open_failure_note;
use crate::emit::run_diags;
use crate::emit::run_output;
use crate::emit::source_output;
use crate::numbering::number_prefix;

verus! {

/// The successfully-read lines of a whole run: each opened source's lines, in
/// order; a source that failed to open contributes nothing.
pub open spec fn run_ok_lines(srcs: Seq<SourceRead>) -> Seq<Seq<char>>
    decreases srcs.len(),
{
    if srcs.len() == 0 {
        Seq::empty()
    } else {
        run_ok_lines(srcs.drop_last()) + (match srcs.last() {
            SourceRead::OpenFailed { name, cause } => Seq::<Seq<char>>::empty(),
            SourceRead::Opened { reads } => ok_lines(reads@),
        })
    }
}

/// How many of these lines are non-blank.
pub open spec fn nonblank_count(lines: Seq<Seq<char>>) -> nat
    decreases lines.len(),
{
    if lines.len() == 0 {
        0
    } else {
        nonblank_count(lines.drop_last()) + (if lines.last().len() == 0 {
            0nat
        } else {
            1nat
        })
    }
}

/// Whether this source failed to open.
pub open spec fn is_open_failed(s: SourceRead) -> bool {
    match s {
        SourceRead::OpenFailed { name, cause } => true,
        SourceRead::Opened { reads } => false,
    }
}

/// The name a failed source was opened under.
pub open spec fn failed_name(s: SourceRead) -> Seq<char> {
    match s {
        SourceRead::OpenFailed { name, cause } => name@,
        SourceRead::Opened { reads } => Seq::empty(),
    }
}

/// The cause a failed source's open reported.
pub open spec fn failed_cause(s: SourceRead) -> Seq<char> {
    match s {
        SourceRead::OpenFailed { name, cause } => cause@,
        SourceRead::Opened { reads } => Seq::empty(),
    }
}

/// With neither numbering flag set, a source's output is exactly its
/// successfully-read lines, unprefixed and in order.
pub proof fn lemma_plain_output_is_lines(reads: Seq<LineRead>)
    ensures
        source_output(false, false, reads) == ok_lines(reads),
    decreases reads.len(),
{
    if reads.len() > 0 {
        lemma_plain_output_is_lines(reads.drop_last());
        assert(source_output(false, false, reads) =~= ok_lines(reads));
    } else {
        assert(source_output(false, false, reads) =~= ok_lines(reads));
    }
}

/// With neither numbering flag set, a run's output is the concatenation of
/// the readable sources' lines, unprefixed and in order.
pub proof fn lemma_plain_run_output(srcs: Seq<SourceRead>)
    ensures
        run_output(false, false, srcs) == run_ok_lines(srcs),
    decreases srcs.len(),
{
    if srcs.len() > 0 {
        lemma_plain_run_output(srcs.drop_last());
        match srcs.last() {
            SourceRead::Opened { reads } => {
                lemma_plain_output_is_lines(reads@);
            },
            SourceRead::OpenFailed { name, cause } => {},
        }
        assert(run_output(false, false, srcs) =~= run_ok_lines(srcs));
    } else {
        assert(run_output(false, false, srcs) =~= run_ok_lines(srcs));
    }
}

/// With all-line numbering set (and nonblank numbering not set), a source has
/// one output line per successfully-read line, and the line at position `j`
/// carries the one-based counter value `j + 1`: numbering starts at one
/// within each source and counts every read line.
pub proof fn lemma_number_all_lines(reads: Seq<LineRead>)
    ensures
        source_output(true, false, reads).len() == ok_lines(reads).len(),
        numbered_count(true, false, reads) == ok_lines(reads).len(),
        forall|j: int|
            0 <= j < ok_lines(reads).len() ==> #[trigger] source_output(true, false, reads)[j]
                == number_prefix((j + 1) as nat) + ok_lines(reads)[j],
    decreases reads.len(),
{
    if reads.len() > 0 {
        lemma_number_all_lines(reads.drop_last());
    }
}

/// With nonblank numbering set — whatever the other flag says — a source has
/// one output line per successfully-read line; a blank line is emitted
/// unchanged and consumes no counter value, and a non-blank line at position
/// `j` carries one plus the number of non-blank lines before it, as if the
/// blank lines did not exist.
pub proof fn lemma_number_nonblank_lines(number_all: bool, reads: Seq<LineRead>)
    ensures
        source_output(number_all, true, reads).len() == ok_lines(reads).len(),
        numbered_count(number_all, true, reads) == nonblank_count(ok_lines(reads)),
        forall|j: int|
            0 <= j < ok_lines(reads).len() ==> #[trigger] source_output(number_all, true, reads)[j]
                == (if ok_lines(reads)[j].len() == 0 {
                ok_lines(reads)[j]
            } else {
                number_prefix(nonblank_count(ok_lines(reads).take(j)) + 1) + ok_lines(reads)[j]
            }),
    decreases reads.len(),
{
    if reads.len() > 0 {
        let prev = reads.drop_last();
        lemma_number_nonblank_lines(number_all, prev);
        let lines = ok_lines(reads);
        let prev_lines = ok_lines(prev);
        match reads.last() {
            LineRead::Failure(cause) => {
                assert(lines =~= prev_lines);
                assert(source_output(number_all, true, reads) =~= source_output(
                    number_all,
                    true,
                    prev,
                ));
            },
            LineRead::Line(l) => {
                assert(lines.drop_last() =~= prev_lines);
                assert forall|j: int|
                    0 <= j < lines.len() implies #[trigger] source_output(number_all, true, reads)[j]
                    == (if lines[j].len() == 0 {
                    lines[j]
                } else {
                    number_prefix(nonblank_count(lines.take(j)) + 1) + lines[j]
                }) by {
                    if j < prev_lines.len() {
                        assert(lines.take(j) =~= prev_lines.take(j));
                        assert(source_output(number_all, true, reads)[j] == source_output(
                            number_all,
                            true,
                            prev,
                        )[j]);
                    } else {
                        assert(lines.take(j) =~= prev_lines);
                    }
                }
            },
        }
    }
}

/// The line counter never carries across sources: wherever a source stands in
/// the run, the run's output is what the sources before it emit, then that
/// source's own output — numbered from a fresh counter — then what the
/// sources after it emit.
pub proof fn lemma_each_source_numbered_afresh(
    number_all: bool,
    number_nonblank: bool,
    srcs: Seq<SourceRead>,
    i: int,
)
    requires
        0 <= i < srcs.len(),
    ensures
        run_output(number_all, number_nonblank, srcs) == run_output(
            number_all,
            number_nonblank,
            srcs.take(i),
        ) + one_source_output(number_all, number_nonblank, srcs[i]) + run_output(
            number_all,
            number_nonblank,
            srcs.skip(i + 1),
        ),
    decreases srcs.len(),
{
    if i == srcs.len() - 1 {
        assert(srcs.take(i) =~= srcs.drop_last());
        assert(srcs.skip(i + 1) =~= Seq::<SourceRead>::empty());
        assert(run_output(number_all, number_nonblank, srcs) =~= run_output(
            number_all,
            number_nonblank,
            srcs.take(i),
        ) + one_source_output(number_all, number_nonblank, srcs[i]) + run_output(
            number_all,
            number_nonblank,
            srcs.skip(i + 1),
        ));
    } else {
        lemma_each_source_numbered_afresh(number_all, number_nonblank, srcs.drop_last(), i);
        assert(srcs.drop_last().take(i) =~= srcs.take(i));
        assert(srcs.skip(i + 1).drop_last() =~= srcs.drop_last().skip(i + 1));
        assert(srcs.skip(i + 1).last() == srcs.last());
        assert(run_output(number_all, number_nonblank, srcs) =~= run_output(
            number_all,
            number_nonblank,
            srcs.take(i),
        ) + one_source_output(number_all, number_nonblank, srcs[i]) + run_output(
            number_all,
            number_nonblank,
            srcs.skip(i + 1),
        ));
    }
}

/// Setting both flags behaves exactly as nonblank numbering alone: a source's
/// output and its counter are the same either way.
pub proof fn lemma_nonblank_overrides_all(reads: Seq<LineRead>)
    ensures
        source_output(true, true, reads) == source_output(false, true, reads),
        numbered_count(true, true, reads) == numbered_count(false, true, reads),
    decreases reads.len(),
{
    if reads.len() > 0 {
        lemma_nonblank_overrides_all(reads.drop_last());
        assert(source_output(true, true, reads) =~= source_output(false, true, reads));
    } else {
        assert(source_output(true, true, reads) =~= source_output(false, true, reads));
    }
}

/// Setting both flags behaves exactly as nonblank numbering alone, over a
/// whole run.
pub proof fn lemma_nonblank_overrides_all_run(srcs: Seq<SourceRead>)
    ensures
        run_output(true, true, srcs) == run_output(false, true, srcs),
    decreases srcs.len(),
{
    if srcs.len() > 0 {
        lemma_nonblank_overrides_all_run(srcs.drop_last());
        match srcs.last() {
            SourceRead::Opened { reads } => {
                lemma_nonblank_overrides_all(reads@);
            },
            SourceRead::OpenFailed { name, cause } => {},
        }
        assert(run_output(true, true, srcs) =~= run_output(false, true, srcs));
    } else {
        assert(run_output(true, true, srcs) =~= run_output(false, true, srcs));
    }
}

/// Removing an argument token that names no source leaves the resolved
/// source list unchanged.
proof fn lemma_source_tokens_skip_nonsource(args: Seq<String>, i: int)
    requires
        0 <= i < args.len(),
        !is_source_token(args[i]@),
    ensures
        source_tokens(args.remove(i)) == source_tokens(args),
    decreases args.len(),
{
    if i == args.len() - 1 {
        assert(args.remove(i) =~= args.drop_last());
        assert(source_tokens(args) =~= source_tokens(args.drop_last()));
    } else {
        lemma_source_tokens_skip_nonsource(args.drop_last(), i);
        assert(args.remove(i).drop_last() =~= args.drop_last().remove(i));
        assert(args.remove(i).last() == args.last());
        assert(source_tokens(args.remove(i)) =~= source_tokens(args));
    }
}

/// Setting both flags behaves as the nonblank flag alone at the resolver too:
/// in an invocation with no unrecognized flag that names the nonblank flag,
/// removing an all-lines flag token changes nothing the resolver produces —
/// the invocation still carries no unrecognized flag, the source tokens are
/// the same, nonblank numbering is still asked for, and all-line numbering is
/// resolved off either way.
pub proof fn lemma_resolver_nonblank_overrides_all(args: Seq<String>, i: int)
    requires
        0 <= i < args.len(),
        is_number_flag_token(args[i]@),
        has_nonblank_flag(args),
        forall|k: int| 0 <= k < args.len() ==> !is_unknown_flag_token(#[trigger] args[k]@),
    ensures
        forall|k: int|
            0 <= k < args.remove(i).len() ==> !is_unknown_flag_token(
                #[trigger] args.remove(i)[k]@,
            ),
        has_nonblank_flag(args.remove(i)),
        source_tokens(args.remove(i)) == source_tokens(args),
        !(has_number_flag(args) && !has_nonblank_flag(args)),
        !(has_number_flag(args.remove(i)) && !has_nonblank_flag(args.remove(i))),
{
    reveal_strlit("-b");
    reveal_strlit("--number-nonblank");
    reveal_strlit("-n");
    reveal_strlit("--number");
    assert forall|k: int|
        0 <= k < args.remove(i).len() implies !is_unknown_flag_token(
        #[trigger] args.remove(i)[k]@,
    ) by {
        if k < i {
            assert(args.remove(i)[k] == args[k]);
        } else {
            assert(args.remove(i)[k] == args[k + 1]);
        }
    }
    let j = choose|j: int| 0 <= j < args.len() && is_nonblank_flag_token(#[trigger] args[j]@);
    assert(args[j]@ != args[i]@) by {
        assert("-b"@.len() == 2);
        assert("--number-nonblank"@.len() == 17);
        assert("-n"@.len() == 2);
        assert("--number"@.len() == 8);
        assert("-b"@[1] == 'b');
        assert("-n"@[1] == 'n');
    }
    if j < i {
        assert(is_nonblank_flag_token(args.remove(i)[j]@));
    } else {
        assert(is_nonblank_flag_token(args.remove(i)[j - 1]@));
    }
    lemma_source_tokens_skip_nonsource(args, i);
}

/// A source that fails to open is reported and skipped: the run's diagnostics
/// contain the note naming it, and the run's output is exactly the output of
/// the run without that source — the remaining sources are still processed,
/// in order.
pub proof fn lemma_open_failure_isolated(
    number_all: bool,
    number_nonblank: bool,
    srcs: Seq<SourceRead>,
    i: int,
)
    requires
        0 <= i < srcs.len(),
        is_open_failed(srcs[i]),
    ensures
        run_output(number_all, number_nonblank, srcs) == run_output(
            number_all,
            number_nonblank,
            srcs.remove(i),
        ),
        run_diags(srcs).contains(open_failure_note(failed_name(srcs[i]), failed_cause(srcs[i]))),
    decreases srcs.len(),
{
    let note = open_failure_note(failed_name(srcs[i]), failed_cause(srcs[i]));
    if i == srcs.len() - 1 {
        assert(srcs.remove(i) =~= srcs.drop_last());
        assert(run_output(number_all, number_nonblank, srcs) =~= run_output(
            number_all,
            number_nonblank,
            srcs.drop_last(),
        ));
        let at = run_diags(srcs.drop_last()).len() as int;
        assert(run_diags(srcs)[at] == note);
    } else {
        lemma_open_failure_isolated(number_all, number_nonblank, srcs.drop_last(), i);
        assert(srcs.remove(i).drop_last() =~= srcs.drop_last().remove(i));
        assert(srcs.remove(i).last() == srcs.last());
        assert(run_output(number_all, number_nonblank, srcs) =~= run_output(
            number_all,
            number_nonblank,
            srcs.remove(i),
        ));
        let k = choose|k: int|
            0 <= k < run_diags(srcs.drop_last()).len() && run_diags(srcs.drop_last())[k] == note;
        assert(run_diags(srcs)[k] == note);
    }
}

} // verus!
