//! Running one converter process: completion tracking, outcome collection,
//! and surfacing of drained output.
//!
//! A spawned converter owns two output pipes. Each pipe is drained to its end
//! by a dedicated reader, so a process can never block writing into a full
//! unread pipe while its runner waits on the other stream; a conversion step
//! counts as complete only when both streams hit end-of-stream and the
//! process has exited. Surfaced output is tagged line by line with the
//! converter's name and the stream it came from.

use vstd::prelude::*;
use vstd::string::StringExecFns;

use crate::convert::Converter;
use crate::convert::converter_name;

verus! {

/// Which output stream of a process a line came from.
#[derive(Clone, Copy, PartialEq, Eq, Structural, Debug)]
pub enum StreamKind {
    Stdout,
    Stderr,
}

/// The life of one spawned converter process, as its runner observes it.
#[derive(Clone, Copy, PartialEq, Eq, Structural, Debug)]
pub struct ProcHandle {
    /// The converter this process runs.
    pub converter: Converter,
    /// Its stdout reader reached end-of-stream.
    pub stdout_eof: bool,
    /// Its stderr reader reached end-of-stream.
    pub stderr_eof: bool,
    /// The process exited (successfully or not).
    pub exited: bool,
}

impl ProcHandle {
    /// A step is complete only with both streams fully drained and the
    /// process gone: never earlier, so no unread buffered output is ever
    /// abandoned on a live process.
    pub open spec fn complete(&self) -> bool {
        &&& self.stdout_eof
        &&& self.stderr_eof
        &&& self.exited
    }

    /// A freshly spawned process: nothing drained, still running.
    pub fn new(converter: Converter) -> (h: ProcHandle)
        ensures
            h.converter == converter,
            !h.stdout_eof,
            !h.stderr_eof,
            !h.exited,
            !h.complete(),
    {
        ProcHandle { converter, stdout_eof: false, stderr_eof: false, exited: false }
    }

    /// The stdout reader reached end-of-stream.
    pub fn note_stdout_eof(&mut self)
        ensures
            *final(self) == (ProcHandle { stdout_eof: true, ..*old(self) }),
    {
        self.stdout_eof = true;
    }

    /// The stderr reader reached end-of-stream.
    pub fn note_stderr_eof(&mut self)
        ensures
            *final(self) == (ProcHandle { stderr_eof: true, ..*old(self) }),
    {
        self.stderr_eof = true;
    }

    /// The process exited.
    pub fn note_exit(&mut self)
        ensures
            *final(self) == (ProcHandle { exited: true, ..*old(self) }),
    {
        self.exited = true;
    }

    /// Whether the step may be reported complete.
    pub fn is_complete(&self) -> (r: bool)
        ensures
            r == self.complete(),
    {
        self.stdout_eof && self.stderr_eof && self.exited
    }
}

/// Completion is never reported while an output stream of the live process
/// still has unread data: both streams must be at end-of-stream, and the
/// process must have exited, before a step counts as done.
pub proof fn lemma_no_early_completion(h: ProcHandle)
    ensures
        h.complete() ==> h.stdout_eof && h.stderr_eof && h.exited,
        !h.stdout_eof || !h.stderr_eof || !h.exited ==> !h.complete(),
{
}

/// The outcome of one conversion step, as its runner observed it.
#[derive(Clone, Copy, PartialEq, Eq, Structural, Debug)]
pub struct StepOutcome {
    /// Which converter ran.
    pub converter: Converter,
    /// Whether it spawned, drained, and exited successfully.
    pub success: bool,
}

/// The outcomes collected for one changed path's pipeline.
pub struct PipelineReport {
    pub outcomes: Vec<StepOutcome>,
}

impl PipelineReport {
    /// An outcome for this converter was recorded.
    pub open spec fn reported(&self, o: StepOutcome) -> bool {
        self.outcomes@.contains(o)
    }

    /// An empty report.
    pub fn new() -> (r: PipelineReport)
        ensures
            r.outcomes@ == Seq::<StepOutcome>::empty(),
    {
        PipelineReport { outcomes: Vec::new() }
    }

    /// Records one step's outcome.
    pub fn record(&mut self, o: StepOutcome)
        ensures
            final(self).outcomes@ == old(self).outcomes@.push(o),
            final(self).reported(o),
            forall|x: StepOutcome| old(self).reported(x) ==> final(self).reported(x),
    {
        self.outcomes.push(o);
        proof {
            assert(final(self).outcomes@.last() == o);
            assert forall|x: StepOutcome| old(self).reported(x) implies final(self).reported(
                x,
            ) by {
                let i = choose|i: int| 0 <= i < old(self).outcomes@.len() && old(self).outcomes@[i] == x;
                assert(final(self).outcomes@[i] == x);
            }
        }
    }
}

/// Awaiting two independent steps records both of their outcomes, whichever
/// finished first: the collected outcomes are the same either way.
pub proof fn lemma_report_order_independent(a: StepOutcome, b: StepOutcome)
    ensures
        seq![a, b].to_multiset() == seq![b, a].to_multiset(),
        forall|x: StepOutcome| seq![a, b].contains(x) <==> seq![b, a].contains(x),
{
    broadcast use vstd::seq_lib::group_to_multiset_ensures;

    let ab = seq![a, b];
    let ba = seq![b, a];
    assert(ab =~= Seq::<StepOutcome>::empty().push(a).push(b));
    assert(ba =~= Seq::<StepOutcome>::empty().push(b).push(a));
    assert(ab.to_multiset() =~= ba.to_multiset());
    assert forall|x: StepOutcome| ab.contains(x) <==> ba.contains(x) by {
        if ab.contains(x) {
            assert(x == a || x == b);
            if x == b {
                assert(ba[0] == x);
            } else {
                assert(ba[1] == x);
            }
        }
        if ba.contains(x) {
            assert(x == a || x == b);
            if x == a {
                assert(ab[0] == x);
            } else {
                assert(ab[1] == x);
            }
        }
    }
}

/// The tag line put above each surfaced output line:
/// `. . . <converter> [<stream>] . . .`.
pub open spec fn header_view(c: Converter, k: StreamKind) -> Seq<char> {
    ". . . "@ + converter_name(c) + match k {
        StreamKind::Stdout => " [stdout] . . ."@,
        StreamKind::Stderr => " [stderr] . . ."@,
    }
}

/// The text printed in place of a line that could not be read.
pub open spec fn read_failure_view(c: Converter, k: StreamKind) -> Seq<char> {
    (match k {
        StreamKind::Stdout => "error: failed to process stdout for "@,
        StreamKind::Stderr => "error: failed to process stderr for "@,
    }) + converter_name(c)
}

/// The lines surfaced for one drained stream: each read line under its tag,
/// an unreadable line replaced by a diagnostic under the same tag.
pub open spec fn surfaced_view(
    c: Converter,
    k: StreamKind,
    lines: Seq<Option<Seq<char>>>,
) -> Seq<Seq<char>>
    decreases lines.len(),
{
    if lines.len() == 0 {
        Seq::empty()
    } else {
        surfaced_view(c, k, lines.drop_last()) + seq![header_view(c, k)] + seq![
            match lines.last() {
                Some(l) => l,
                None => read_failure_view(c, k),
            },
        ]
    }
}

/// Builds the tag line for one converter and stream.
pub fn render_header(c: Converter, k: StreamKind) -> (r: String)
    ensures
        r@ == header_view(c, k),
{
    let mut h = String::from_str(". . . ");
    h.append(c.name());
    match k {
        StreamKind::Stdout => h.append(" [stdout] . . ."),
        StreamKind::Stderr => h.append(" [stderr] . . ."),
    }
    h
}

/// Builds the diagnostic shown for a line that could not be read.
pub fn render_read_failure(c: Converter, k: StreamKind) -> (r: String)
    ensures
        r@ == read_failure_view(c, k),
{
    let mut b = match k {
        StreamKind::Stdout => String::from_str("error: failed to process stdout for "),
        StreamKind::Stderr => String::from_str("error: failed to process stderr for "),
    };
    b.append(c.name());
    b
}

/// The verbose-mode output for one drained stream: what was read, or a
/// diagnostic where reading failed, each line under its tag.
pub fn render_stream(c: Converter, k: StreamKind, lines: &Vec<Option<String>>) -> (out: Vec<
    String,
>)
    ensures
        out.deep_view() == surfaced_view(c, k, lines.deep_view()),
{
    let ghost lv = lines.deep_view();
    let mut out: Vec<String> = Vec::new();
    let mut i: usize = 0;
    proof {
        assert(lv.take(0) =~= Seq::<Option<Seq<char>>>::empty());
        assert(out.deep_view() =~= Seq::<Seq<char>>::empty());
    }
    while i < lines.len()
        invariant
            i <= lines.len(),
            out.deep_view() == surfaced_view(c, k, lv.take(i as int)),
        decreases lines.len() - i,
    {
        proof {
            assert(lv.take(i as int + 1).drop_last() =~= lv.take(i as int));
            assert(lv.take(i as int + 1).last() == lv[i as int]);
        }
        out.push(render_header(c, k));
        let body = match &lines[i] {
            Some(l) => l.clone(),
            None => render_read_failure(c, k),
        };
        proof {
            assert(lv[i as int] == lines@[i as int].deep_view());
        }
        out.push(body);
        proof {
            assert(out.deep_view() =~~= surfaced_view(c, k, lv.take(i as int + 1)));
        }
        i += 1;
    }
    proof {
        assert(lv.take(lines@.len() as int) =~= lv);
    }
    out
}

/// What the runner prints for one drained stream: everything under its tags
/// when verbose, nothing otherwise — drained output is discarded silently
/// unless diagnostics were asked for.
pub fn surface_output(
    verbose: bool,
    c: Converter,
    k: StreamKind,
    lines: &Vec<Option<String>>,
) -> (out: Vec<String>)
    ensures
        verbose ==> out.deep_view() == surfaced_view(c, k, lines.deep_view()),
        !verbose ==> out.deep_view() == Seq::<Seq<char>>::empty(),
{
    if verbose {
        render_stream(c, k, lines)
    } else {
        let out: Vec<String> = Vec::new();
        proof {
            assert(out.deep_view() =~~= Seq::<Seq<char>>::empty());
        }
        out
    }
}

} // verus!

