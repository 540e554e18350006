//! The orchestration engine: one persistent evaluator session behind a batch
//! accumulator. Each input line is either echoed verbatim or split at the
//! marker, and every flushed batch is evaluated exactly once, its result
//! re-emitted inline after the marker.

use vstd::prelude::*;
use crate::batch::Accumulator;
use crate::eval::{EvalError, NumbatWrapper};
use crate::text::{fragment_of, has_marker, join_nl, split_lines, split_lines_spec};

verus! {

/// Every line echoed verbatim, each followed by one line break.
pub open spec fn echoed(lines: Seq<Seq<char>>) -> Seq<char>
    decreases lines.len(),
{
    if lines.len() == 0 {
        Seq::empty()
    } else {
        echoed(lines.drop_last()) + lines.last() + seq!['\n']
    }
}

/// How many of the lines carry the marker; each such line triggers one flush.
pub open spec fn marked_count(lines: Seq<Seq<char>>, marker: Seq<char>) -> int
    decreases lines.len(),
{
    if lines.len() == 0 {
        0
    } else {
        marked_count(lines.drop_last(), marker) + if has_marker(lines.last(), marker) {
            1int
        } else {
            0int
        }
    }
}

/// The pending batch after feeding `lines` to an accumulator that started
/// with pending fragments `p0`.
pub open spec fn pending_after(
    p0: Seq<Seq<char>>,
    lines: Seq<Seq<char>>,
    marker: Seq<char>,
) -> Seq<Seq<char>>
    decreases lines.len(),
{
    if lines.len() == 0 {
        p0
    } else if has_marker(lines.last(), marker) {
        Seq::empty()
    } else {
        pending_after(p0, lines.drop_last(), marker).push(lines.last())
    }
}

/// The code strings flushed to the evaluator while feeding `lines`, in order:
/// one per marked line, each the newline-join of every fragment collected
/// since the previous flush.
pub open spec fn batches(
    p0: Seq<Seq<char>>,
    lines: Seq<Seq<char>>,
    marker: Seq<char>,
) -> Seq<Seq<char>>
    decreases lines.len(),
{
    if lines.len() == 0 {
        Seq::empty()
    } else if has_marker(lines.last(), marker) {
        batches(p0, lines.drop_last(), marker).push(
            join_nl(
                pending_after(p0, lines.drop_last(), marker).push(
                    fragment_of(lines.last(), marker),
                ),
            ),
        )
    } else {
        batches(p0, lines.drop_last(), marker)
    }
}

/// The output stream for `lines`, given the evaluation results of the flushed
/// batches in order: an unmarked line is echoed verbatim with a line break; a
/// marked line is emitted as its fragment, the marker, one space, the batch's
/// result, and a line break.
pub open spec fn rendered(
    lines: Seq<Seq<char>>,
    marker: Seq<char>,
    results: Seq<Seq<char>>,
) -> Seq<char>
    decreases lines.len(),
{
    if lines.len() == 0 {
        Seq::empty()
    } else if has_marker(lines.last(), marker) {
        rendered(lines.drop_last(), marker, results.drop_last()) + fragment_of(
            lines.last(),
            marker,
        ) + marker + seq![' '] + results.last() + seq!['\n']
    } else {
        rendered(lines.drop_last(), marker, results) + lines.last() + seq!['\n']
    }
}

/// What one fed line produced: the text to emit for it, the batch it flushed
/// (if it carried the marker), and that batch's evaluation outcome.
pub struct StepOutput {
    pub printed: String,
    pub flushed: Option<String>,
    pub eval: Option<Result<String, EvalError>>,
}

/// What a whole run produced: the output stream, every flushed batch and every
/// evaluation result in order, the error that halted the run (if any), and how
/// many lines were fully handled before it.
pub struct RunOutput {
    pub printed: String,
    pub codes: Vec<String>,
    pub results: Vec<String>,
    pub error: Option<EvalError>,
    pub processed: usize,
}

/// One evaluator session behind one batch accumulator.
pub struct Session {
    pub backend: NumbatWrapper,
    pub acc: Accumulator,
}

impl Session {
    /// The marker substring this session scans for.
    pub open spec fn marker_view(&self) -> Seq<char> {
        self.acc.marker@
    }

    /// The fragments collected since the last flush, in order.
    pub open spec fn pending_view(&self) -> Seq<Seq<char>> {
        self.acc.pending_view()
    }

    /// A session over `backend` that scans for `marker`, with an empty batch.
    pub fn new(backend: NumbatWrapper, marker: String) -> (r: Session)
        ensures
            r.marker_view() == marker@,
            r.pending_view() == Seq::<Seq<char>>::empty(),
    {
        Session { backend, acc: Accumulator::new(marker) }
    }

    /// A session scanning for the default marker `#=`.
    pub fn with_default_marker(backend: NumbatWrapper) -> (r: Session)
        ensures
            r.marker_view() == seq!['#', '='],
            r.pending_view() == Seq::<Seq<char>>::empty(),
    {
        proof {
            reveal_strlit("#=");
            assert("#="@ =~= seq!['#', '=']);
        }
        Session::new(backend, String::from_str("#="))
    }

    /// Handles one input line.
    ///
    /// A line without the marker joins the pending batch and is echoed
    /// verbatim plus one line break. A line with the marker flushes: the
    /// fragment before the marker's first occurrence completes the batch, the
    /// newline-joined batch goes to the evaluator once, and the emitted text
    /// is the fragment, the marker, one space, the result, and a line break —
    /// or just the fragment and the marker when the evaluation fails, so that
    /// everything already owed to the stream is still handed back.
    pub fn step(&mut self, line: &String) -> (r: StepOutput)
        ensures
            final(self).marker_view() == old(self).marker_view(),
            !has_marker(line@, old(self).marker_view()) ==> ({
                &&& r.eval is None
                &&& r.flushed is None
                &&& r.printed@ == line@ + seq!['\n']
                &&& final(self).pending_view() == old(self).pending_view().push(line@)
            }),
            has_marker(line@, old(self).marker_view()) ==> ({
                let frag = fragment_of(line@, old(self).marker_view());
                &&& r.eval is Some
                &&& r.flushed is Some
                &&& (r.flushed->Some_0)@ == join_nl(old(self).pending_view().push(frag))
                &&& final(self).pending_view() == Seq::<Seq<char>>::empty()
                &&& (r.eval->Some_0 is Ok ==> r.printed@ == frag + old(self).marker_view()
                    + seq![' '] + (r.eval->Some_0->Ok_0)@ + seq!['\n'])
                &&& (r.eval->Some_0 is Err ==> r.printed@ == frag + old(self).marker_view())
            }),
    {
        proof {
            reveal_strlit("\n");
            reveal_strlit(" ");
        }
        match self.acc.handle_line(line) {
            None => {
                let mut printed = line.clone();
                printed.append("\n");
                StepOutput { printed, flushed: None, eval: None }
            },
            Some((frag, code)) => {
                let mut printed = frag;
                printed.append(self.acc.marker.as_str());
                match self.backend.eval_block(code.clone()) {
                    Ok(v) => {
                        printed.append(" ");
                        printed.append(v.as_str());
                        printed.append("\n");
                        StepOutput { printed, flushed: Some(code), eval: Some(Ok(v)) }
                    },
                    Err(e) => StepOutput { printed, flushed: Some(code), eval: Some(Err(e)) },
                }
            },
        }
    }

    /// Runs the whole input through the session, line by line and strictly in
    /// order. The output stream, every flushed batch, and every evaluation
    /// result come back as values; an evaluation failure halts the run at the
    /// offending line, and everything emitted before it is kept.
    #[verifier::loop_isolation(false)]
    pub fn run(&mut self, lines: &Vec<String>) -> (r: RunOutput)
        ensures
            final(self).marker_view() == old(self).marker_view(),
            r.processed <= lines@.len(),
            r.results@.len() == r.codes@.len() || r.results@.len() + 1 == r.codes@.len(),
            r.error is None ==> ({
                let lv = lines.deep_view();
                let m = old(self).marker_view();
                let p0 = old(self).pending_view();
                &&& r.processed == lines@.len()
                &&& r.codes.deep_view() == batches(p0, lv, m)
                &&& r.results@.len() == r.codes@.len()
                &&& r.printed@ == rendered(lv, m, r.results.deep_view())
                &&& final(self).pending_view() == pending_after(p0, lv, m)
            }),
            r.error is Some ==> ({
                let lv = lines.deep_view();
                let m = old(self).marker_view();
                let p0 = old(self).pending_view();
                &&& r.processed < lines@.len()
                &&& has_marker(lv[r.processed as int], m)
                &&& r.codes.deep_view() == batches(p0, lv.take(r.processed + 1), m)
                &&& r.results@.len() + 1 == r.codes@.len()
                &&& r.printed@ == rendered(lv.take(r.processed as int), m, r.results.deep_view())
                    + fragment_of(lv[r.processed as int], m) + m
                &&& final(self).pending_view() == Seq::<Seq<char>>::empty()
            }),
    {
        let ghost lv = lines.deep_view();
        let ghost m = old(self).marker_view();
        let ghost p0 = old(self).pending_view();
        let mut printed = String::new();
        let mut codes: Vec<String> = Vec::new();
        let mut results: Vec<String> = Vec::new();
        let mut i: usize = 0;
        proof {
            assert(lv.take(0int) =~= Seq::<Seq<char>>::empty());
            assert(codes.deep_view() =~= Seq::<Seq<char>>::empty());
            assert(results.deep_view() =~= Seq::<Seq<char>>::empty());
        }
        while i < lines.len()
            invariant
                lv == lines.deep_view(),
                lv.len() == lines@.len(),
                i <= lines@.len(),
                self.marker_view() == m,
                self.pending_view() == pending_after(p0, lv.take(i as int), m),
                codes.deep_view() == batches(p0, lv.take(i as int), m),
                results@.len() == codes@.len(),
                results.deep_view().len() == results@.len(),
                codes.deep_view().len() == codes@.len(),
                printed@ == rendered(lv.take(i as int), m, results.deep_view()),
            decreases lines@.len() - i,
        {
            proof {
                assert(lv.take(i + 1).drop_last() =~= lv.take(i as int));
                assert(lv.take(i + 1).last() == lv[i as int]);
            }
            let out = self.step(&lines[i]);
            printed.append(out.printed.as_str());
            let ghost old_codes = codes.deep_view();
            let ghost old_results = results.deep_view();
            match out.flushed {
                Some(c) => {
                    codes.push(c);
                    proof {
                        assert(codes.deep_view() =~= old_codes.push((out.flushed->Some_0)@));
                    }
                },
                None => {},
            }
            match out.eval {
                Some(ev) => match ev {
                    Ok(v) => {
                        results.push(v);
                        proof {
                            assert(results.deep_view() =~= old_results.push(
                                (out.eval->Some_0->Ok_0)@,
                            ));
                            assert(results.deep_view().drop_last() =~= old_results);
                        }
                    },
                    Err(e) => {
                        return RunOutput { printed, codes, results, error: Some(e), processed: i };
                    },
                },
                None => {},
            }
            i += 1;
        }
        proof {
            assert(lv.take(lines@.len() as int) =~= lv);
        }
        RunOutput { printed, codes, results, error: None, processed: i }
    }

    /// Splits an in-memory text into its lines and runs them through the
    /// session: the whole-text entry point over the same engine.
    pub fn run_text(&mut self, content: &str) -> (r: RunOutput)
        ensures
            final(self).marker_view() == old(self).marker_view(),
            r.processed <= split_lines_spec(content@).len(),
            r.error is None ==> ({
                let lv = split_lines_spec(content@);
                let m = old(self).marker_view();
                let p0 = old(self).pending_view();
                &&& r.processed == lv.len()
                &&& r.codes.deep_view() == batches(p0, lv, m)
                &&& r.results@.len() == r.codes@.len()
                &&& r.printed@ == rendered(lv, m, r.results.deep_view())
                &&& final(self).pending_view() == pending_after(p0, lv, m)
            }),
            r.error is Some ==> ({
                let lv = split_lines_spec(content@);
                let m = old(self).marker_view();
                let p0 = old(self).pending_view();
                &&& r.processed < lv.len()
                &&& has_marker(lv[r.processed as int], m)
                &&& r.codes.deep_view() == batches(p0, lv.take(r.processed + 1), m)
                &&& r.results@.len() + 1 == r.codes@.len()
                &&& r.printed@ == rendered(lv.take(r.processed as int), m, r.results.deep_view())
                    + fragment_of(lv[r.processed as int], m) + m
                &&& final(self).pending_view() == Seq::<Seq<char>>::empty()
            }),
    {
        let lines = split_lines(content);
        self.run(&lines)
    }
}

/// Law: every line without the marker passes through untouched — over a whole
/// input of unmarked lines the output is exactly the lines echoed verbatim, in
/// their original order, each followed by one line break, whatever results the
/// evaluator might have produced.
pub proof fn lemma_unmarked_lines_echoed(
    lines: Seq<Seq<char>>,
    marker: Seq<char>,
    results: Seq<Seq<char>>,
)
    requires
        forall|i: int| 0 <= i < lines.len() ==> !has_marker(#[trigger] lines[i], marker),
    ensures
        rendered(lines, marker, results) == echoed(lines),
        batches(Seq::empty(), lines, marker) == Seq::<Seq<char>>::empty(),
    decreases lines.len(),
{
    if lines.len() > 0 {
        assert(lines.last() == lines[lines.len() - 1]);
        assert(forall|i: int|
            0 <= i < lines.drop_last().len() ==> #[trigger] lines.drop_last()[i] == lines[i]);
        lemma_unmarked_lines_echoed(lines.drop_last(), marker, results);
    }
}

/// Law: a trailing line without the marker flushes nothing — appending it to
/// the input leaves the batches handed to the evaluator unchanged, so a
/// statement never terminated by a marker is silently discarded.
pub proof fn lemma_trailing_unmarked_no_flush(
    p0: Seq<Seq<char>>,
    lines: Seq<Seq<char>>,
    marker: Seq<char>,
    extra: Seq<char>,
)
    requires
        !has_marker(extra, marker),
    ensures
        batches(p0, lines.push(extra), marker) == batches(p0, lines, marker),
{
    assert(lines.push(extra).drop_last() =~= lines);
    assert(lines.push(extra).last() == extra);
}

/// Law: the evaluator is invoked exactly once per marked line — the number of
/// flushed batches equals the number of lines carrying the marker.
pub proof fn lemma_one_batch_per_marked_line(
    p0: Seq<Seq<char>>,
    lines: Seq<Seq<char>>,
    marker: Seq<char>,
)
    ensures
        batches(p0, lines, marker).len() == marked_count(lines, marker),
    decreases lines.len(),
{
    if lines.len() > 0 {
        lemma_one_batch_per_marked_line(p0, lines.drop_last(), marker);
    }
}

} // verus!
