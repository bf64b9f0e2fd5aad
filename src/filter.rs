use vstd::prelude::*;

use crate::matcher::{contains_any, Matcher};
use crate::text::views_of;

verus! {

/// Whether a line is passed on: it contains a reference line, or with
/// `negate` it contains none.
pub open spec fn selected(literals: Seq<Seq<char>>, line: Seq<char>, negate: bool) -> bool {
    contains_any(literals, line) != negate
}

/// The selection test as a predicate on lines.
pub open spec fn selector(literals: Seq<Seq<char>>, negate: bool) -> spec_fn(Seq<char>) -> bool {
    |line: Seq<char>| selected(literals, line, negate)
}

/// The lines that are passed on, in input order.
pub open spec fn filtered(literals: Seq<Seq<char>>, lines: Seq<Seq<char>>, negate: bool) -> Seq<
    Seq<char>,
> {
    lines.filter(selector(literals, negate))
}

impl Matcher {
    /// Whether `line` is passed on: it matches, or with `negate` it does not.
    pub fn should_emit(&self, line: &str, negate: bool) -> (r: bool)
        ensures
            r == selected(self@, line@, negate),
    {
        self.matches(line) != negate
    }

    /// The lines that are passed on, in their input order.
    pub fn filter_lines(&self, lines: &[String], negate: bool) -> (r: Vec<String>)
        ensures
            views_of(r@) == filtered(self@, views_of(lines@), negate),
    {
        let ghost all = views_of(lines@);
        let ghost keep = selector(self@, negate);
        let mut out: Vec<String> = Vec::new();
        let mut i: usize = 0;
        while i < lines.len()
            invariant
                0 <= i <= lines@.len(),
                all == views_of(lines@),
                keep == selector(self@, negate),
                views_of(out@) == all.take(i as int).filter(keep),
            decreases lines@.len() - i,
        {
            let line = &lines[i];
            let ghost before = views_of(out@);
            proof {
                assert(all[i as int] == line@);
                assert(all.take(i as int + 1) =~= all.take(i as int).push(line@));
                all.take(i as int).lemma_filter_push(line@, keep);
            }
            if self.should_emit(line.as_str(), negate) {
                out.push(line.clone());
                assert(views_of(out@) =~= before.push(line@));
            }
            i = i + 1;
        }
        assert(all.take(lines@.len() as int) =~= all);
        out
    }
}

/// `positions` lists, in strictly increasing order, the places in `lines`
/// that the lines of `out` come from: one place for each output line, and
/// every place whose line is selected.
pub open spec fn drawn_in_order(
    positions: Seq<int>,
    out: Seq<Seq<char>>,
    lines: Seq<Seq<char>>,
    literals: Seq<Seq<char>>,
    negate: bool,
) -> bool {
    &&& positions.len() == out.len()
    &&& forall|k: int|
        0 <= k < positions.len() ==> 0 <= #[trigger] positions[k] < lines.len() && out[k]
            == lines[positions[k]]
    &&& forall|k1: int, k2: int|
        0 <= k1 < k2 < positions.len() ==> #[trigger] positions[k1] < #[trigger] positions[k2]
    &&& forall|j: int|
        0 <= j < lines.len() && #[trigger] selected(literals, lines[j], negate) ==> exists|k: int|
            0 <= k < positions.len() && positions[k] == j
}

proof fn selected_positions(literals: Seq<Seq<char>>, lines: Seq<Seq<char>>, negate: bool) -> (positions:
    Seq<int>)
    ensures
        drawn_in_order(positions, filtered(literals, lines, negate), lines, literals, negate),
        forall|k: int| 0 <= k < positions.len() ==> #[trigger] positions[k] < lines.len(),
    decreases lines.len(),
{
    let p = selector(literals, negate);
    if lines.len() == 0 {
        assert(filtered(literals, lines, negate) =~= Seq::empty()) by {
            reveal(Seq::filter);
        }
        Seq::empty()
    } else {
        let n = lines.len() - 1;
        let init = lines.drop_last();
        let prev = selected_positions(literals, init, negate);
        assert(lines =~= init.push(lines.last()));
        init.lemma_filter_push(lines.last(), p);
        let out = filtered(literals, lines, negate);
        let prev_out = filtered(literals, init, negate);
        if selected(literals, lines[n], negate) {
            let positions = prev.push(n);
            assert(out == prev_out.push(lines[n]));
            assert forall|j: int|
                0 <= j < lines.len() && #[trigger] selected(literals, lines[j], negate) implies exists|k: int|
                    0 <= k < positions.len() && positions[k] == j by {
                if j < n {
                    assert(init[j] == lines[j]);
                    let k = choose|k: int| 0 <= k < prev.len() && prev[k] == j;
                    assert(positions[k] == j);
                } else {
                    assert(positions[positions.len() - 1] == j);
                }
            }
            positions
        } else {
            assert(out == prev_out);
            assert forall|j: int|
                0 <= j < lines.len() && #[trigger] selected(literals, lines[j], negate) implies exists|k: int|
                    0 <= k < prev.len() && prev[k] == j by {
                assert(j < n);
                assert(init[j] == lines[j]);
            }
            prev
        }
    }
}

/// The output keeps the input's order: its lines are drawn from strictly
/// increasing places of the input, and every selected line is among them.
pub proof fn lemma_filter_keeps_order(
    literals: Seq<Seq<char>>,
    lines: Seq<Seq<char>>,
    negate: bool,
)
    ensures
        exists|positions: Seq<int>|
            drawn_in_order(positions, filtered(literals, lines, negate), lines, literals, negate),
{
    let positions = selected_positions(literals, lines, negate);
}

/// Filtering the output a second time, with the same reference lines and the
/// same flag, gives that output back unchanged.
pub proof fn lemma_filter_idempotent(
    literals: Seq<Seq<char>>,
    lines: Seq<Seq<char>>,
    negate: bool,
)
    ensures
        filtered(literals, filtered(literals, lines, negate), negate) == filtered(
            literals,
            lines,
            negate,
        ),
    decreases lines.len(),
{
    let p = selector(literals, negate);
    if lines.len() > 0 {
        let init = lines.drop_last();
        lemma_filter_idempotent(literals, init, negate);
        assert(lines =~= init.push(lines.last()));
        init.lemma_filter_push(lines.last(), p);
        init.filter(p).lemma_filter_push(lines.last(), p);
    }
}

/// With `negate`, exactly the lines are passed on that are held back without
/// it: line by line the two selections are complements, and the negated
/// output is the input without the lines of the plain output.
pub proof fn lemma_negate_complements(literals: Seq<Seq<char>>, lines: Seq<Seq<char>>)
    ensures
        forall|line: Seq<char>|
            #[trigger] selected(literals, line, true) == !selected(literals, line, false),
        filtered(literals, lines, true) == lines.filter(
            |line: Seq<char>| !selected(literals, line, false),
        ),
    decreases lines.len(),
{
    let q = |line: Seq<char>| !selected(literals, line, false);
    if lines.len() > 0 {
        let init = lines.drop_last();
        lemma_negate_complements(literals, init);
        assert(lines =~= init.push(lines.last()));
        init.lemma_filter_push(lines.last(), selector(literals, true));
        init.lemma_filter_push(lines.last(), q);
    } else {
        assert(lines.filter(q) =~= Seq::empty()) by {
            reveal(Seq::filter);
        }
        assert(filtered(literals, lines, true) =~= Seq::empty()) by {
            reveal(Seq::filter);
        }
    }
}

} // verus!
