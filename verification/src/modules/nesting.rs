use super::command::Command;
use vstd::prelude::*;

verus! {

/// What one command adds to the nesting depth: a loop start opens a loop, a
/// loop end closes one, every other command leaves the depth alone.
pub open spec fn delta(c: Command) -> int {
    match c {
        Command::IterStart => 1,
        Command::IterEnd => -1,
        _ => 0,
    }
}

/// The loops that `cmds[lo..hi)` opens minus the loops that it closes.
pub open spec fn depth(cmds: Seq<Command>, lo: int, hi: int) -> int
    decreases hi - lo,
{
    if lo >= hi {
        0
    } else {
        depth(cmds, lo, hi - 1) + delta(cmds[hi - 1])
    }
}

/// `cmds[lo..hi)` closes every loop that it opens, and closes none before it
/// has opened it.
pub open spec fn balanced(cmds: Seq<Command>, lo: int, hi: int) -> bool {
    &&& depth(cmds, lo, hi) == 0
    &&& forall|k: int| lo <= k <= hi ==> depth(cmds, lo, k) >= 0
}

/// The loop start at `start` and the loop end at `end` belong to one loop:
/// what stands between them is balanced.
pub open spec fn is_loop(cmds: Seq<Command>, start: int, end: int) -> bool {
    &&& 0 <= start < end < cmds.len()
    &&& cmds[start] == Command::IterStart
    &&& cmds[end] == Command::IterEnd
    &&& balanced(cmds, start + 1, end)
}

/// Some loop start belongs to the loop end at `end`.
pub open spec fn has_loop_start(cmds: Seq<Command>, end: int) -> bool {
    exists|start: int| is_loop(cmds, start, end)
}

/// Some loop end belongs to the loop start at `start`.
pub open spec fn has_loop_end(cmds: Seq<Command>, start: int) -> bool {
    exists|end: int| is_loop(cmds, start, end)
}

/// The loop start that belongs to the loop end at `end`.
pub open spec fn loop_start(cmds: Seq<Command>, end: int) -> int
    recommends
        has_loop_start(cmds, end),
{
    choose|start: int| is_loop(cmds, start, end)
}

/// The loop end that belongs to the loop start at `start`.
pub open spec fn loop_end(cmds: Seq<Command>, start: int) -> int
    recommends
        has_loop_end(cmds, start),
{
    choose|end: int| is_loop(cmds, start, end)
}

/// The depth of a range is the sum of the depths of its two parts.
pub proof fn lemma_depth_split(cmds: Seq<Command>, lo: int, mid: int, hi: int)
    requires
        lo <= mid <= hi,
    ensures
        depth(cmds, lo, hi) == depth(cmds, lo, mid) + depth(cmds, mid, hi),
    decreases hi - mid,
{
    if mid < hi {
        lemma_depth_split(cmds, lo, mid, hi - 1);
    }
}

/// The depth of a range is what its first command adds plus the depth of the
/// rest.
pub proof fn lemma_depth_first(cmds: Seq<Command>, lo: int, hi: int)
    requires
        lo < hi,
    ensures
        depth(cmds, lo, hi) == delta(cmds[lo]) + depth(cmds, lo + 1, hi),
{
    lemma_depth_split(cmds, lo, lo + 1, hi);
    assert(depth(cmds, lo, lo) == 0);
    assert(depth(cmds, lo, lo + 1) == depth(cmds, lo, lo) + delta(cmds[lo]));
}

/// A loop end has at most one loop start: however deep the nesting, no inner
/// or outer loop start is taken for its partner.
pub proof fn lemma_loop_start_unique(cmds: Seq<Command>, s1: int, s2: int, end: int)
    requires
        is_loop(cmds, s1, end),
        is_loop(cmds, s2, end),
    ensures
        s1 == s2,
{
    if s1 < s2 {
        lemma_inner_start_is_no_partner(cmds, s1, s2, end);
    } else if s2 < s1 {
        lemma_inner_start_is_no_partner(cmds, s2, s1, end);
    }
}

/// No loop start inside a loop belongs to the end of that loop.
proof fn lemma_inner_start_is_no_partner(cmds: Seq<Command>, outer: int, inner: int, end: int)
    requires
        is_loop(cmds, outer, end),
        outer < inner,
    ensures
        !is_loop(cmds, inner, end),
{
    if is_loop(cmds, inner, end) {
        lemma_depth_first(cmds, inner, end);
        lemma_depth_split(cmds, outer + 1, inner, end);
        assert(depth(cmds, outer + 1, inner) >= 0);
    }
}

/// A loop start has at most one loop end.
pub proof fn lemma_loop_end_unique(cmds: Seq<Command>, start: int, e1: int, e2: int)
    requires
        is_loop(cmds, start, e1),
        is_loop(cmds, start, e2),
    ensures
        e1 == e2,
{
    if e1 < e2 {
        assert(depth(cmds, start + 1, e1 + 1) == depth(cmds, start + 1, e1) + delta(cmds[e1]));
        assert(depth(cmds, start + 1, e1 + 1) >= 0);
    } else if e2 < e1 {
        assert(depth(cmds, start + 1, e2 + 1) == depth(cmds, start + 1, e2) + delta(cmds[e2]));
        assert(depth(cmds, start + 1, e2 + 1) >= 0);
    }
}

/// Loops nest: a loop that starts inside another loop ends inside it.
pub proof fn lemma_loops_do_not_cross(cmds: Seq<Command>, s1: int, e1: int, s2: int, e2: int)
    requires
        is_loop(cmds, s1, e1),
        is_loop(cmds, s2, e2),
        s1 < s2 < e1,
    ensures
        e2 < e1,
{
    if e2 == e1 {
        lemma_loop_start_unique(cmds, s1, s2, e1);
    } else if e1 < e2 {
        lemma_depth_split(cmds, s1 + 1, s2, e1);
        lemma_depth_first(cmds, s2, e1);
        assert(depth(cmds, s1 + 1, s2) >= 0);
        assert(depth(cmds, s2 + 1, e1) >= 0);
    }
}

/// In a program of `n` loop starts followed by `n` loop ends, what
/// `cmds[lo..hi)` opens and closes, for `lo` among the starts.
proof fn lemma_depth_in_nest(cmds: Seq<Command>, n: int, lo: int, hi: int)
    requires
        cmds.len() == 2 * n,
        forall|i: int| 0 <= i < n ==> cmds[i] == Command::IterStart,
        forall|i: int| n <= i < 2 * n ==> cmds[i] == Command::IterEnd,
        0 <= lo <= n,
        lo <= hi <= 2 * n,
    ensures
        depth(cmds, lo, hi) == (if hi <= n {
            hi - lo
        } else {
            (n - lo) - (hi - n)
        }),
    decreases hi - lo,
{
    if lo < hi {
        lemma_depth_in_nest(cmds, n, lo, hi - 1);
    }
}

/// Nesting of any depth is matched from the outside in: in a program of `n`
/// loop starts followed by `n` loop ends, the `k`-th start from the left and
/// the `k`-th end from the right are one loop. The last loop end belongs to
/// the first loop start, and to no inner one.
pub proof fn lemma_nest_of_loops(cmds: Seq<Command>, n: int, k: int)
    requires
        cmds.len() == 2 * n,
        forall|i: int| 0 <= i < n ==> cmds[i] == Command::IterStart,
        forall|i: int| n <= i < 2 * n ==> cmds[i] == Command::IterEnd,
        0 <= k < n,
    ensures
        is_loop(cmds, k, 2 * n - 1 - k),
        has_loop_start(cmds, 2 * n - 1 - k),
        loop_start(cmds, 2 * n - 1 - k) == k,
        has_loop_end(cmds, k),
        loop_end(cmds, k) == 2 * n - 1 - k,
{
    let lo = k + 1;
    let end = 2 * n - 1 - k;
    lemma_depth_in_nest(cmds, n, lo, end);
    assert forall|m: int| lo <= m <= end implies depth(cmds, lo, m) >= 0 by {
        lemma_depth_in_nest(cmds, n, lo, m);
    }
    assert(is_loop(cmds, k, end));
    lemma_loop_start_unique(cmds, k, loop_start(cmds, end), end);
    lemma_loop_end_unique(cmds, k, end, loop_end(cmds, k));
}

/// The two searches undo each other: the loop end of the loop start of `end`
/// is `end`.
pub proof fn lemma_loop_end_of_loop_start(cmds: Seq<Command>, end: int)
    requires
        has_loop_start(cmds, end),
    ensures
        has_loop_end(cmds, loop_start(cmds, end)),
        loop_end(cmds, loop_start(cmds, end)) == end,
{
    let start = loop_start(cmds, end);
    assert(is_loop(cmds, start, end));
    lemma_loop_end_unique(cmds, start, loop_end(cmds, start), end);
}

/// The two searches undo each other: the loop start of the loop end of
/// `start` is `start`.
pub proof fn lemma_loop_start_of_loop_end(cmds: Seq<Command>, start: int)
    requires
        has_loop_end(cmds, start),
    ensures
        has_loop_start(cmds, loop_end(cmds, start)),
        loop_start(cmds, loop_end(cmds, start)) == start,
{
    let end = loop_end(cmds, start);
    assert(is_loop(cmds, start, end));
    lemma_loop_start_unique(cmds, loop_start(cmds, end), start, end);
}

} // verus!
