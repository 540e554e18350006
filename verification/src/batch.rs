//! The batch accumulator: groups consecutive lines into a pending statement
//! batch, and flushes the batch as one newline-joined code string when a line
//! carries the marker.

use vstd::prelude::*;
use crate::text::{
    find_marker, fragment_of, has_marker, join_lines, join_nl, lemma_first_is_marker_pos,
};

verus! {

/// The accumulator's state: the marker substring it scans for, and the
/// fragments collected since the last flush.
pub struct Accumulator {
    pub marker: String,
    pub pending: Vec<String>,
}

impl Accumulator {
    /// The fragments collected since the last flush, in order.
    pub open spec fn pending_view(&self) -> Seq<Seq<char>> {
        self.pending.deep_view()
    }

    /// A fresh accumulator with an empty batch.
    pub fn new(marker: String) -> (r: Accumulator)
        ensures
            r.marker@ == marker@,
            r.pending_view() == Seq::<Seq<char>>::empty(),
    {
        let r = Accumulator { marker, pending: Vec::new() };
        proof {
            assert(r.pending_view() =~= Seq::<Seq<char>>::empty());
        }
        r
    }

    /// Feeds one line to the accumulator.
    ///
    /// A line without the marker is appended verbatim to the pending batch and
    /// `None` comes back: the caller echoes the line unchanged. A line with
    /// the marker is split at the marker's first occurrence; the fragment
    /// before it joins the batch, the whole batch is flushed as the fragments
    /// joined by newlines, and the batch is cleared. Text after the marker is
    /// discarded.
    pub fn handle_line(&mut self, line: &String) -> (r: Option<(String, String)>)
        ensures
            final(self).marker@ == old(self).marker@,
            !has_marker(line@, old(self).marker@) ==> r is None
                && final(self).pending_view() == old(self).pending_view().push(line@),
            has_marker(line@, old(self).marker@) ==> (r matches Some(fc)
                && fc.0@ == fragment_of(line@, old(self).marker@)
                && fc.1@ == join_nl(
                old(self).pending_view().push(fragment_of(line@, old(self).marker@)),
            )
                && final(self).pending_view() == Seq::<Seq<char>>::empty()),
    {
        let ghost old_pending = self.pending_view();
        match find_marker(line.as_str(), self.marker.as_str()) {
            Some(k) => {
                proof {
                    lemma_first_is_marker_pos(line@, self.marker@, k as int);
                    assert(line@.take(k as int) =~= line@.subrange(0, k as int));
                }
                let frag = String::from_str(line.as_str().substring_char(0, k));
                self.pending.push(frag.clone());
                proof {
                    assert(self.pending_view() =~= old_pending.push(
                        fragment_of(line@, old(self).marker@),
                    ));
                }
                let code = join_lines(&self.pending);
                self.pending.clear();
                proof {
                    assert(self.pending_view() =~= Seq::<Seq<char>>::empty());
                }
                Some((frag, code))
            },
            None => {
                self.pending.push(line.clone());
                proof {
                    assert(self.pending_view() =~= old_pending.push(line@));
                }
                None
            },
        }
    }
}

} // verus!
