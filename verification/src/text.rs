//! Character-level text operations the batching engine is built on:
//! locating the first occurrence of the marker substring in a line, and
//! joining accumulated fragments with newline separators.

use vstd::prelude::*;

verus! {

/// True when `marker` occurs in `line` starting at character position `k`.
pub open spec fn occurs_at(line: Seq<char>, marker: Seq<char>, k: int) -> bool {
    &&& 0 <= k
    &&& k + marker.len() <= line.len()
    &&& line.subrange(k, k + marker.len() as int) == marker
}

/// True when `marker` occurs somewhere in `line`.
pub open spec fn has_marker(line: Seq<char>, marker: Seq<char>) -> bool {
    exists|k: int| occurs_at(line, marker, k)
}

/// True when `k` is the position of the first occurrence of `marker` in `line`.
pub open spec fn is_first_occurrence(line: Seq<char>, marker: Seq<char>, k: int) -> bool {
    &&& occurs_at(line, marker, k)
    &&& forall|j: int| 0 <= j < k ==> !occurs_at(line, marker, j)
}

/// The position of the first occurrence of `marker` in `line`;
/// meaningful only when `has_marker(line, marker)` holds.
pub open spec fn marker_pos(line: Seq<char>, marker: Seq<char>) -> int {
    choose|k: int| is_first_occurrence(line, marker, k)
}

/// The evaluable fragment of a marked line: everything before the first marker.
pub open spec fn fragment_of(line: Seq<char>, marker: Seq<char>) -> Seq<char> {
    line.take(marker_pos(line, marker))
}

/// Any occurrence has a first occurrence at or before it.
proof fn lemma_first_occurrence_exists(line: Seq<char>, marker: Seq<char>, k: int)
    requires
        occurs_at(line, marker, k),
    ensures
        exists|f: int| is_first_occurrence(line, marker, f),
    decreases k,
{
    if forall|j: int| 0 <= j < k ==> !occurs_at(line, marker, j) {
        assert(is_first_occurrence(line, marker, k));
    } else {
        let j = choose|j: int| 0 <= j < k && occurs_at(line, marker, j);
        lemma_first_occurrence_exists(line, marker, j);
    }
}

/// There is at most one first occurrence.
proof fn lemma_first_occurrence_unique(line: Seq<char>, marker: Seq<char>, k1: int, k2: int)
    requires
        is_first_occurrence(line, marker, k1),
        is_first_occurrence(line, marker, k2),
    ensures
        k1 == k2,
{
}

/// A line with a marker has a well-defined first occurrence, and `marker_pos`
/// names it.
pub proof fn lemma_marker_pos(line: Seq<char>, marker: Seq<char>)
    requires
        has_marker(line, marker),
    ensures
        is_first_occurrence(line, marker, marker_pos(line, marker)),
{
    let k = choose|k: int| occurs_at(line, marker, k);
    lemma_first_occurrence_exists(line, marker, k);
}

/// A first occurrence found by search is the one `marker_pos` names.
pub proof fn lemma_first_is_marker_pos(line: Seq<char>, marker: Seq<char>, k: int)
    requires
        is_first_occurrence(line, marker, k),
    ensures
        has_marker(line, marker),
        marker_pos(line, marker) == k,
{
    assert(occurs_at(line, marker, k));
    lemma_marker_pos(line, marker);
    lemma_first_occurrence_unique(line, marker, k, marker_pos(line, marker));
}

/// Whether `marker` matches the characters of `line` starting at position `i`.
fn matches_at(line: &str, marker: &str, i: usize, llen: usize, mlen: usize) -> (b: bool)
    requires
        llen == line@.len(),
        mlen == marker@.len(),
        i + mlen <= llen,
    ensures
        b == occurs_at(line@, marker@, i as int),
{
    let mut j: usize = 0;
    while j < mlen
        invariant
            llen == line@.len(),
            mlen == marker@.len(),
            i + mlen <= llen,
            j <= mlen,
            forall|t: int| 0 <= t < j ==> line@[i + t] == marker@[t],
        decreases mlen - j,
    {
        if line.get_char(i + j) != marker.get_char(j) {
            proof {
                let sub = line@.subrange(i as int, i + mlen);
                assert(sub[j as int] == line@[i + j]);
                assert(sub != marker@);
            }
            return false;
        }
        j += 1;
    }
    proof {
        assert(line@.subrange(i as int, i + mlen) =~= marker@);
    }
    true
}

/// The first position at which `marker` occurs in `line`, or `None` when it
/// does not occur at all.
pub fn find_marker(line: &str, marker: &str) -> (r: Option<usize>)
    ensures
        match r {
            Some(k) => is_first_occurrence(line@, marker@, k as int),
            None => !has_marker(line@, marker@),
        },
{
    let llen = line.unicode_len();
    let mlen = marker.unicode_len();
    if mlen > llen {
        return None;
    }
    let mut i: usize = 0;
    while i <= llen - mlen
        invariant
            llen == line@.len(),
            mlen == marker@.len(),
            mlen <= llen,
            i <= llen - mlen + 1,
            forall|j: int| 0 <= j < i ==> !occurs_at(line@, marker@, j),
        decreases llen - mlen + 1 - i,
    {
        if matches_at(line, marker, i, llen, mlen) {
            return Some(i);
        }
        if i == llen - mlen {
            return None;
        }
        i += 1;
    }
    None
}

/// The fragments of a batch joined by single newline separators, in order.
pub open spec fn join_nl(parts: Seq<Seq<char>>) -> Seq<char>
    decreases parts.len(),
{
    if parts.len() == 0 {
        Seq::empty()
    } else if parts.len() == 1 {
        parts[0]
    } else {
        join_nl(parts.drop_last()) + seq!['\n'] + parts.last()
    }
}

/// Joins the accumulated fragments with newline separators.
pub fn join_lines(parts: &Vec<String>) -> (r: String)
    ensures
        r@ == join_nl(parts.deep_view()),
{
    proof {
        reveal_strlit("\n");
    }
    let ghost dv = parts.deep_view();
    let mut out = String::new();
    let mut i: usize = 0;
    while i < parts.len()
        invariant
            dv == parts.deep_view(),
            dv.len() == parts@.len(),
            i <= parts@.len(),
            out@ == join_nl(dv.take(i as int)),
            "\n"@ == seq!['\n'],
        decreases parts@.len() - i,
    {
        proof {
            assert(dv.take(i + 1).drop_last() =~= dv.take(i as int));
            assert(dv.take(i + 1).last() == dv[i as int]);
            assert(dv[i as int] == parts@[i as int]@);
        }
        if i > 0 {
            out.append("\n");
        } else {
            proof {
                assert(dv.take(1int) =~= seq![dv[0int]]);
            }
        }
        out.append(parts[i].as_str());
        i += 1;
    }
    proof {
        assert(dv.take(parts@.len() as int) =~= dv);
    }
    out
}

/// One line with its trailing carriage return stripped, as lenient
/// line-reading does before handing the line on.
pub open spec fn strip_cr(l: Seq<char>) -> Seq<char> {
    if l.len() > 0 && l.last() == '\r' {
        l.drop_last()
    } else {
        l
    }
}

/// The lines of an in-memory text: segments separated by newline characters,
/// each newline-terminated segment with a trailing carriage return removed.
/// A final segment without a terminating newline is still a line, kept as it
/// stands; a terminating newline adds no empty final line.
pub open spec fn split_lines_spec(s: Seq<char>) -> Seq<Seq<char>>
    decreases s.len(),
    via split_lines_spec_dec
{
    if s.len() == 0 {
        Seq::empty()
    } else if has_marker(s, seq!['\n']) {
        let k = marker_pos(s, seq!['\n']);
        seq![strip_cr(s.take(k))] + split_lines_spec(s.subrange(k + 1, s.len() as int))
    } else {
        seq![s]
    }
}

#[via_fn]
proof fn split_lines_spec_dec(s: Seq<char>) {
    if s.len() != 0 && has_marker(s, seq!['\n']) {
        lemma_marker_pos(s, seq!['\n']);
    }
}

fn strip_cr_exec(l: &str) -> (r: String)
    ensures
        r@ == strip_cr(l@),
{
    let n = l.unicode_len();
    if n > 0 && l.get_char(n - 1) == '\r' {
        proof {
            assert(l@.subrange(0, n - 1) =~= l@.drop_last());
        }
        String::from_str(l.substring_char(0, n - 1))
    } else {
        String::from_str(l)
    }
}

/// Splits an in-memory text into its lines.
#[verifier::loop_isolation(false)]
pub fn split_lines(content: &str) -> (r: Vec<String>)
    ensures
        r.deep_view() == split_lines_spec(content@),
{
    proof {
        reveal_strlit("\n");
        assert("\n"@ =~= seq!['\n']);
    }
    let mut out: Vec<String> = Vec::new();
    let mut rest: &str = content;
    let mut n = rest.unicode_len();
    proof {
        assert(out.deep_view() =~= Seq::<Seq<char>>::empty());
        assert(Seq::<Seq<char>>::empty() + split_lines_spec(content@) =~= split_lines_spec(
            content@,
        ));
    }
    while n > 0
        invariant
            n == rest@.len(),
            split_lines_spec(content@) == out.deep_view() + split_lines_spec(rest@),
        decreases n,
    {
        let ghost old_out = out.deep_view();
        match find_marker(rest, "\n") {
            Some(k) => {
                proof {
                    lemma_first_is_marker_pos(rest@, seq!['\n'], k as int);
                    assert(rest@.subrange(0, k as int) =~= rest@.take(k as int));
                }
                out.push(strip_cr_exec(rest.substring_char(0, k)));
                let next = rest.substring_char(k + 1, n);
                proof {
                    assert(out.deep_view() =~= old_out.push(strip_cr(rest@.take(k as int))));
                    assert(old_out + (seq![strip_cr(rest@.take(k as int))] + split_lines_spec(
                        next@,
                    )) =~= out.deep_view() + split_lines_spec(next@));
                }
                rest = next;
                n = rest.unicode_len();
            },
            None => {
                out.push(String::from_str(rest));
                proof {
                    assert(out.deep_view() =~= old_out.push(rest@));
                    assert(old_out + seq![rest@] =~= out.deep_view());
                }
                return out;
            },
        }
    }
    proof {
        assert(split_lines_spec(rest@) =~= Seq::<Seq<char>>::empty());
        assert(out.deep_view() + Seq::<Seq<char>>::empty() =~= out.deep_view());
    }
    out
}

} // verus!
