//! General properties of the filter, stated over the scan model and proved
//! once for every pattern set, every pair of context settings and every
//! input.

use vstd::prelude::*;
use crate::matcher::line_matches;
use crate::scan::{ScanState, initial_state, step_state, step_emit, scan, filter_output, push_bounded};

verus! {

/// Unfolding a scan one line at a time: the scan of a prefix one line
/// longer is the scan of the shorter prefix followed by one step on the
/// added line.
pub proof fn lemma_scan_take_step(
    patterns: Seq<Seq<char>>,
    before: nat,
    after_cfg: nat,
    lines: Seq<Seq<char>>,
    j: int,
)
    requires
        0 <= j < lines.len(),
    ensures
        ({
            let (st, out) = scan(patterns, before, after_cfg, lines.take(j));
            &&& scan(patterns, before, after_cfg, lines.take(j + 1)).0 == step_state(
                patterns, before, after_cfg, st, lines[j])
            &&& scan(patterns, before, after_cfg, lines.take(j + 1)).1 == out + step_emit(
                patterns, st, lines[j])
        }),
{
    assert(lines.take(j + 1).drop_last() =~= lines.take(j));
    assert(lines.take(j + 1).last() == lines[j]);
}

/// With an empty pattern set no line ever matches, so the filter emits
/// nothing, whatever the context settings and the input.
pub proof fn lemma_empty_patterns_empty_output(
    before: nat,
    after_cfg: nat,
    lines: Seq<Seq<char>>,
)
    ensures
        filter_output(Seq::empty(), before, after_cfg, lines) =~= Seq::<Seq<char>>::empty(),
        scan(Seq::empty(), before, after_cfg, lines).0.after == 0,
    decreases lines.len(),
{
    if lines.len() > 0 {
        lemma_empty_patterns_empty_output(before, after_cfg, lines.drop_last());
    }
}

/// With no context asked for (`before == 0` and `after == 0`) the output is
/// exactly the subsequence of input lines that match at least one pattern,
/// in original order, with nothing added.
pub proof fn lemma_no_context_is_matching_subsequence(
    patterns: Seq<Seq<char>>,
    lines: Seq<Seq<char>>,
)
    ensures
        filter_output(patterns, 0, 0, lines) =~= lines.filter(
            |l: Seq<char>| line_matches(patterns, l),
        ),
        scan(patterns, 0, 0, lines).0 == initial_state(),
    decreases lines.len(),
{
    reveal(Seq::filter);
    if lines.len() > 0 {
        lemma_no_context_is_matching_subsequence(patterns, lines.drop_last());
        let st = scan(patterns, 0, 0, lines.drop_last()).0;
        if !line_matches(patterns, lines.last()) {
            assert(push_bounded(st.buf, lines.last(), 0) =~= Seq::<Seq<char>>::empty());
        }
        assert(scan(patterns, 0, 0, lines).0.buf =~= Seq::<Seq<char>>::empty());
    }
}

/// The filter is a function of its arguments: two runs with the same
/// pattern set, the same context settings and the same input produce the
/// same output, line for line.
pub proof fn lemma_filter_deterministic(
    patterns: Seq<Seq<char>>,
    before: nat,
    after_cfg: nat,
    lines: Seq<Seq<char>>,
    out1: Seq<Seq<char>>,
    out2: Seq<Seq<char>>,
)
    requires
        out1 == filter_output(patterns, before, after_cfg, lines),
        out2 == filter_output(patterns, before, after_cfg, lines),
    ensures
        out1 == out2,
{
}

/// How many lines in a row, up to the current position, went into the
/// context buffer: the lines since the last flush, trailing-context
/// emission, or the start of the input.
pub open spec fn buffered_run(
    patterns: Seq<Seq<char>>,
    before: nat,
    after_cfg: nat,
    lines: Seq<Seq<char>>,
) -> nat
    decreases lines.len(),
{
    if lines.len() == 0 {
        0
    } else {
        let st = scan(patterns, before, after_cfg, lines.drop_last()).0;
        if st.after > 0 || line_matches(patterns, lines.last()) {
            0
        } else {
            buffered_run(patterns, before, after_cfg, lines.drop_last()) + 1
        }
    }
}

/// The before-context a match would flush is exactly the `min(before, k)`
/// lines immediately preceding the current position, in original order,
/// where `k` counts the lines buffered since the last flush-or-start; and
/// while trailing context is owed the buffer is empty.
pub proof fn lemma_buffer_is_preceding_context(
    patterns: Seq<Seq<char>>,
    before: nat,
    after_cfg: nat,
    lines: Seq<Seq<char>>,
)
    ensures
        ({
            let st = scan(patterns, before, after_cfg, lines).0;
            let k = buffered_run(patterns, before, after_cfg, lines);
            &&& st.buf.len() == if k < before { k } else { before }
            &&& st.buf.len() <= lines.len()
            &&& st.buf =~= lines.subrange(lines.len() - st.buf.len(), lines.len() as int)
            &&& st.after > 0 ==> st.buf.len() == 0
        }),
    decreases lines.len(),
{
    if lines.len() > 0 {
        let dl = lines.drop_last();
        lemma_buffer_is_preceding_context(patterns, before, after_cfg, dl);
        let st0 = scan(patterns, before, after_cfg, dl).0;
        let st = scan(patterns, before, after_cfg, lines).0;
        let k0 = buffered_run(patterns, before, after_cfg, dl);
        if st0.after > 0 || line_matches(patterns, lines.last()) {
            assert(st.buf =~= lines.subrange(
                lines.len() - st.buf.len(), lines.len() as int));
        } else {
            let n = lines.len() as int;
            let b0 = st0.buf.len() as int;
            assert(dl.len() as int == n - 1);
            assert(b0 <= n - 1);
            assert(st0.buf == dl.subrange(dl.len() - b0, dl.len() as int));
            assert forall|m: int| 0 <= m < b0 implies st0.buf[m] == lines[n - 1 - b0 + m] by {
                assert(st0.buf[m] == dl[dl.len() - b0 + m]);
                assert(dl[dl.len() - b0 + m] == lines[n - 1 - b0 + m]);
            }
            if st0.buf.len() < before {
                assert(st.buf == st0.buf.push(lines.last()));
                assert forall|m: int| 0 <= m < b0 + 1 implies st.buf[m] == lines[n - b0 - 1 + m]
                by {
                    if m == b0 {
                        assert(st.buf[m] == lines[n - 1]);
                    }
                }
                assert(st.buf =~= lines.subrange(n - b0 - 1, n));
            } else if before == 0 {
                assert(st.buf =~= lines.subrange(n, n));
            } else {
                assert(st.buf == st0.buf.push(lines.last()).drop_first());
                assert forall|m: int| 0 <= m < b0 implies st.buf[m] == lines[n - b0 + m] by {
                    assert(st.buf[m] == st0.buf.push(lines.last())[m + 1]);
                    if m + 1 < b0 {
                        assert(st.buf[m] == st0.buf[m + 1]);
                    } else {
                        assert(st.buf[m] == lines[n - 1]);
                    }
                }
                assert(st.buf =~= lines.subrange(n - b0, n));
            }
        }
    }
}

/// A match reached with the after-count at zero flushes each buffered line
/// exactly once: the emission is the buffer followed by the matched line,
/// and the buffer is left empty, so nothing carries over to the next flush.
pub proof fn lemma_flush_no_carry_over(
    patterns: Seq<Seq<char>>,
    before: nat,
    after_cfg: nat,
    st: ScanState,
    line: Seq<char>,
)
    requires
        st.after == 0,
        line_matches(patterns, line),
    ensures
        step_emit(patterns, st, line) == st.buf.push(line),
        step_state(patterns, before, after_cfg, st, line).buf =~= Seq::<Seq<char>>::empty(),
{
}

/// Once a match is recognized at position `i`, every following position
/// `j` up to `i + after_cfg` (as far as the input reaches) still owes
/// trailing context: its line is emitted unconditionally, exactly one line
/// per step, and no line strictly inside the window is recognized as a
/// fresh match, so the window is never lengthened or re-armed from inside.
/// The count owed falls by one at each step and reaches zero exactly after
/// the window's last line, so trailing context is exactly `after_cfg`
/// lines, or fewer only when the input ends first.
pub proof fn lemma_after_window(
    patterns: Seq<Seq<char>>,
    before: nat,
    after_cfg: nat,
    lines: Seq<Seq<char>>,
    i: int,
    j: int,
)
    requires
        0 <= i < lines.len(),
        scan(patterns, before, after_cfg, lines.take(i)).0.after == 0,
        line_matches(patterns, lines[i]),
        i < j <= i + after_cfg,
        j < lines.len(),
    ensures
        scan(patterns, before, after_cfg, lines.take(j)).0.after == i + 1 + after_cfg - j,
        step_emit(patterns, scan(patterns, before, after_cfg, lines.take(j)).0, lines[j])
            =~= seq![lines[j]],
        scan(patterns, before, after_cfg, lines.take(j + 1)).0.after == i + after_cfg - j,
    decreases j,
{
    if j == i + 1 {
        lemma_scan_take_step(patterns, before, after_cfg, lines, i);
    } else {
        lemma_after_window(patterns, before, after_cfg, lines, i, j - 1);
    }
    lemma_scan_take_step(patterns, before, after_cfg, lines, j);
}

} // verus!

