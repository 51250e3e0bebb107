//! The line emitter: given the flags of a configuration and what was read
//! from each source, compute the exact output lines and diagnostic lines.
//!
//! A source is either one that failed to open (its name and the cause) or one
//! that was opened and produced a sequence of line reads, each a line's text
//! or a per-line failure's description.  Failed opens and failed reads yield
//! a diagnostic and are skipped; they never stop the run.  The line counter
//! is scoped to one source: it starts at zero for every source.

use vstd::prelude::*;

use crate::config::Config;
use crate::numbering::line_is_numbered;
use crate::numbering::render_line;
use crate::numbering::rendered_line;
use crate::numbering::should_number;

verus! {

/// One attempted line read from an opened source: the line's text with its
/// terminator stripped, or the description of a read failure.
pub enum LineRead {
    Line(String),
    Failure(String),
}

/// One attempted source: it failed to open (with its name and the failure's
/// cause), or it was opened and produced these line reads, in order.
pub enum SourceRead {
    OpenFailed { name: String, cause: String },
    Opened { reads: Vec<LineRead> },
}

/// The text of the successfully-read lines, in order.
pub open spec fn ok_lines(reads: Seq<LineRead>) -> Seq<Seq<char>>
    decreases reads.len(),
{
    if reads.len() == 0 {
        Seq::empty()
    } else {
        ok_lines(reads.drop_last()) + (match reads.last() {
            LineRead::Line(l) => seq![l@],
            LineRead::Failure(_) => Seq::<Seq<char>>::empty(),
        })
    }
}

/// How many of these reads receive a number under the given flags.
pub open spec fn numbered_count(number_all: bool, number_nonblank: bool, reads: Seq<LineRead>) -> nat
    decreases reads.len(),
{
    if reads.len() == 0 {
        0
    } else {
        numbered_count(number_all, number_nonblank, reads.drop_last()) + (match reads.last() {
            LineRead::Line(l) => if line_is_numbered(number_all, number_nonblank, l@) {
                1nat
            } else {
                0nat
            },
            LineRead::Failure(_) => 0nat,
        })
    }
}

/// The output lines of one source: one per successfully-read line, numbered
/// from a counter that starts at zero for this source.
pub open spec fn source_output(number_all: bool, number_nonblank: bool, reads: Seq<LineRead>) -> Seq<
    Seq<char>,
>
    decreases reads.len(),
{
    if reads.len() == 0 {
        Seq::empty()
    } else {
        source_output(number_all, number_nonblank, reads.drop_last()) + (match reads.last() {
            LineRead::Line(l) => seq![
                rendered_line(
                    number_all,
                    number_nonblank,
                    numbered_count(number_all, number_nonblank, reads.drop_last()),
                    l@,
                ),
            ],
            LineRead::Failure(_) => Seq::<Seq<char>>::empty(),
        })
    }
}

/// The diagnostic lines of one opened source: the description of each read
/// failure, in order.  The flags play no part here.
pub open spec fn source_diags(reads: Seq<LineRead>) -> Seq<Seq<char>>
    decreases reads.len(),
{
    if reads.len() == 0 {
        Seq::empty()
    } else {
        source_diags(reads.drop_last()) + (match reads.last() {
            LineRead::Line(_) => Seq::<Seq<char>>::empty(),
            LineRead::Failure(cause) => seq![cause@],
        })
    }
}

/// The diagnostic written when a source cannot be opened.
pub open spec fn open_failure_note(name: Seq<char>, cause: Seq<char>) -> Seq<char> {
    "Failed to open "@ + name + ": "@ + cause
}

/// The output lines one source contributes to a run: none where it failed to
/// open, its own output — numbered from a fresh counter — where it opened.
pub open spec fn one_source_output(number_all: bool, number_nonblank: bool, src: SourceRead) -> Seq<
    Seq<char>,
> {
    match src {
        SourceRead::OpenFailed { name, cause } => Seq::<Seq<char>>::empty(),
        SourceRead::Opened { reads } => source_output(number_all, number_nonblank, reads@),
    }
}

/// The diagnostic lines one source contributes to a run: the open-failure
/// note where it failed to open, its read-failure descriptions where it
/// opened.
pub open spec fn one_source_diags(src: SourceRead) -> Seq<Seq<char>> {
    match src {
        SourceRead::OpenFailed { name, cause } => seq![open_failure_note(name@, cause@)],
        SourceRead::Opened { reads } => source_diags(reads@),
    }
}

/// The output lines of a whole run: the sources' outputs concatenated, in
/// order; a source that failed to open contributes nothing.
pub open spec fn run_output(number_all: bool, number_nonblank: bool, srcs: Seq<SourceRead>) -> Seq<
    Seq<char>,
>
    decreases srcs.len(),
{
    if srcs.len() == 0 {
        Seq::empty()
    } else {
        run_output(number_all, number_nonblank, srcs.drop_last()) + one_source_output(
            number_all,
            number_nonblank,
            srcs.last(),
        )
    }
}

/// The diagnostic lines of a whole run: an open-failure note for each source
/// that could not be opened, and the read-failure descriptions of the others,
/// in order.
pub open spec fn run_diags(srcs: Seq<SourceRead>) -> Seq<Seq<char>>
    decreases srcs.len(),
{
    if srcs.len() == 0 {
        Seq::empty()
    } else {
        run_diags(srcs.drop_last()) + one_source_diags(srcs.last())
    }
}

/// Per-source numbering state, for callers that emit line by line as a
/// source is read: the configuration's two flags and the count of lines
/// numbered so far in this source.
pub struct SourceEmitter {
    /// Number every line.
    pub number_all: bool,
    /// Number only non-blank lines; overrides `number_all`.
    pub number_nonblank: bool,
    /// How many lines of this source were numbered so far.
    pub counter: u64,
}

impl SourceEmitter {
    /// A fresh emitter for the next source: the configuration's flags, and
    /// the counter at zero — it never carries over from an earlier source.
    pub fn start(config: &Config) -> (e: SourceEmitter)
        ensures
            e.number_all == config.number_all_lines,
            e.number_nonblank == config.number_nonblank_lines,
            e.counter == 0,
    {
        SourceEmitter {
            number_all: config.number_all_lines,
            number_nonblank: config.number_nonblank_lines,
            counter: 0,
        }
    }

    /// The output line for the next successfully-read line, advancing the
    /// counter exactly when the line is numbered.
    pub fn next_line(&mut self, line: &str) -> (out: String)
        requires
            old(self).counter < u64::MAX,
        ensures
            out@ == rendered_line(
                old(self).number_all,
                old(self).number_nonblank,
                old(self).counter as nat,
                line@,
            ),
            final(self).number_all == old(self).number_all,
            final(self).number_nonblank == old(self).number_nonblank,
            line_is_numbered(old(self).number_all, old(self).number_nonblank, line@)
                ==> final(self).counter == old(self).counter + 1,
            !line_is_numbered(old(self).number_all, old(self).number_nonblank, line@)
                ==> final(self).counter == old(self).counter,
    {
        let out = render_line(self.number_all, self.number_nonblank, self.counter, line);
        if should_number(self.number_all, self.number_nonblank, line) {
            self.counter = self.counter + 1;
        }
        out
    }
}

/// The diagnostic for a source that could not be opened.
pub fn open_failure_message(name: &str, cause: &str) -> (msg: String)
    ensures
        msg@ == open_failure_note(name@, cause@),
{
    let mut msg = String::from_str("Failed to open ");
    msg.append(name);
    msg.append(": ");
    msg.append(cause);
    proof {
        assert(msg@ =~= open_failure_note(name@, cause@));
    }
    msg
}

/// Processes one source's line reads: returns its output lines and its
/// diagnostic lines, numbering from a counter that starts at zero.
pub fn emit_source(config: &Config, reads: &Vec<LineRead>) -> (r: (Vec<String>, Vec<String>))
    ensures
        r.0@.len() == source_output(config.number_all_lines, config.number_nonblank_lines, reads@).len(),
        forall|k: int|
            0 <= k < r.0@.len() ==> #[trigger] r.0@[k]@ == source_output(
                config.number_all_lines,
                config.number_nonblank_lines,
                reads@,
            )[k],
        r.1@.len() == source_diags(reads@).len(),
        forall|k: int| 0 <= k < r.1@.len() ==> #[trigger] r.1@[k]@ == source_diags(reads@)[k],
{
    let number_all = config.number_all_lines;
    let number_nonblank = config.number_nonblank_lines;
    let mut out: Vec<String> = Vec::new();
    let mut diags: Vec<String> = Vec::new();
    let mut emitter = SourceEmitter::start(config);
    let mut i: usize = 0;
    while i < reads.len()
        invariant
            i <= reads.len(),
            emitter.number_all == number_all,
            emitter.number_nonblank == number_nonblank,
            emitter.counter <= i,
            emitter.counter == numbered_count(
                number_all,
                number_nonblank,
                reads@.subrange(0, i as int),
            ),
            out@.len() == source_output(
                number_all,
                number_nonblank,
                reads@.subrange(0, i as int),
            ).len(),
            forall|k: int|
                0 <= k < out@.len() ==> #[trigger] out@[k]@ == source_output(
                    number_all,
                    number_nonblank,
                    reads@.subrange(0, i as int),
                )[k],
            diags@.len() == source_diags(reads@.subrange(0, i as int)).len(),
            forall|k: int|
                0 <= k < diags@.len() ==> #[trigger] diags@[k]@ == source_diags(
                    reads@.subrange(0, i as int),
                )[k],
        decreases reads.len() - i,
    {
        proof {
            assert(reads@.subrange(0, i + 1 as int).drop_last() =~= reads@.subrange(0, i as int));
            assert(reads@.subrange(0, i + 1 as int).last() == reads@[i as int]);
        }
        match &reads[i] {
            LineRead::Line(l) => {
                let line_out = emitter.next_line(l.as_str());
                out.push(line_out);
            },
            LineRead::Failure(cause) => {
                diags.push(cause.clone());
            },
        }
        i = i + 1;
    }
    proof {
        assert(reads@.subrange(0, reads@.len() as int) =~= reads@);
    }
    (out, diags)
}

/// Processes every source of a run, in order: returns all output lines and
/// all diagnostic lines.  A source that fails to open yields one diagnostic
/// and no output; the counter starts afresh with each source.
pub fn emit_all(config: &Config, srcs: &Vec<SourceRead>) -> (r: (Vec<String>, Vec<String>))
    ensures
        r.0@.len() == run_output(config.number_all_lines, config.number_nonblank_lines, srcs@).len(),
        forall|k: int|
            0 <= k < r.0@.len() ==> #[trigger] r.0@[k]@ == run_output(
                config.number_all_lines,
                config.number_nonblank_lines,
                srcs@,
            )[k],
        r.1@.len() == run_diags(srcs@).len(),
        forall|k: int| 0 <= k < r.1@.len() ==> #[trigger] r.1@[k]@ == run_diags(srcs@)[k],
{
    let number_all = config.number_all_lines;
    let number_nonblank = config.number_nonblank_lines;
    let mut out: Vec<String> = Vec::new();
    let mut diags: Vec<String> = Vec::new();
    let mut i: usize = 0;
    while i < srcs.len()
        invariant
            i <= srcs.len(),
            number_all == config.number_all_lines,
            number_nonblank == config.number_nonblank_lines,
            out@.len() == run_output(number_all, number_nonblank, srcs@.subrange(0, i as int)).len(),
            forall|k: int|
                0 <= k < out@.len() ==> #[trigger] out@[k]@ == run_output(
                    number_all,
                    number_nonblank,
                    srcs@.subrange(0, i as int),
                )[k],
            diags@.len() == run_diags(srcs@.subrange(0, i as int)).len(),
            forall|k: int|
                0 <= k < diags@.len() ==> #[trigger] diags@[k]@ == run_diags(
                    srcs@.subrange(0, i as int),
                )[k],
        decreases srcs.len() - i,
    {
        proof {
            assert(srcs@.subrange(0, i + 1 as int).drop_last() =~= srcs@.subrange(0, i as int));
            assert(srcs@.subrange(0, i + 1 as int).last() == srcs@[i as int]);
        }
        match &srcs[i] {
            SourceRead::OpenFailed { name, cause } => {
                diags.push(open_failure_message(name.as_str(), cause.as_str()));
            },
            SourceRead::Opened { reads } => {
                let (mut o, mut d) = emit_source(config, reads);
                out.append(&mut o);
                diags.append(&mut d);
            },
        }
        i = i + 1;
    }
    proof {
        assert(srcs@.subrange(0, srcs@.len() as int) =~= srcs@);
    }
    (out, diags)
}

} // verus!
