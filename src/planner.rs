use vstd::prelude::*;

use crate::config::LoopConfig;

verus! {

/// Every range starts no later than it ends.
pub open spec fn loops_well_formed(loops: Seq<LoopConfig>) -> bool {
    forall|j: int| 0 <= j < loops.len() ==> #[trigger] loops[j].well_formed()
}

/// The first range, in the order given, whose block starts at `pos`.
pub open spec fn first_loop_at(loops: Seq<LoopConfig>, pos: int) -> Option<LoopConfig>
    decreases loops.len(),
{
    if loops.len() == 0 {
        None
    } else if loops[0].from_action_num == pos {
        Some(loops[0])
    } else {
        first_loop_at(loops.drop_first(), pos)
    }
}

/// The indices `a, a + 1, ..., b - 1` (empty when `b <= a`).
pub open spec fn range_seq(a: int, b: int) -> Seq<usize> {
    if a < b {
        Seq::new((b - a) as nat, |j: int| (a + j) as usize)
    } else {
        Seq::empty()
    }
}

/// The indices of a range's block that exist in a sequence of `n` instructions.
pub open spec fn block(lc: LoopConfig, n: int) -> Seq<usize> {
    let end = if lc.to_action_num + 1 <= n { lc.to_action_num + 1 } else { n };
    range_seq(lc.from_action_num as int, end)
}

/// `s` written `k` times one after the other.
pub open spec fn repeat(s: Seq<usize>, k: nat) -> Seq<usize>
    decreases k,
{
    if k == 0 {
        Seq::empty()
    } else {
        repeat(s, (k - 1) as nat) + s
    }
}

/// Where the scan goes on after a range: just past its end, or at the end
/// of the instructions when the range reaches beyond them.
pub open spec fn resume_at(lc: LoopConfig, n: int) -> int {
    if lc.to_action_num + 1 <= n { lc.to_action_num + 1 } else { n }
}

/// The execution order from position `pos` on: a position where a range
/// starts is replaced by that range's block, repeated, and the scan resumes
/// just past the range; any other position runs once.
pub open spec fn plan_from(n: int, loops: Seq<LoopConfig>, pos: int) -> Seq<usize>
    decreases n - pos,
{
    if pos >= n || pos < 0 {
        Seq::empty()
    } else {
        match first_loop_at(loops, pos) {
            Some(lc) => if lc.to_action_num >= pos {
                repeat(block(lc, n), lc.times as nat) + plan_from(n, loops, resume_at(lc, n))
            } else {
                Seq::empty()
            },
            None => seq![pos as usize] + plan_from(n, loops, pos + 1),
        }
    }
}

/// The execution order of `n` instructions under the given loop ranges.
pub open spec fn plan(n: int, loops: Seq<LoopConfig>) -> Seq<usize> {
    plan_from(n, loops, 0)
}

/// Finds the first range that starts at `pos`.
fn find_loop_at(loops: &Vec<LoopConfig>, pos: u64) -> (r: Option<LoopConfig>)
    ensures
        r == first_loop_at(loops@, pos as int),
{
    let mut i: usize = 0;
    assert(loops@.subrange(0, loops@.len() as int) =~= loops@);
    while i < loops.len()
        invariant
            0 <= i <= loops.len(),
            first_loop_at(loops@, pos as int) == first_loop_at(
                loops@.subrange(i as int, loops@.len() as int),
                pos as int,
            ),
        decreases loops.len() - i,
    {
        let lc = loops[i];
        assert(loops@.subrange(i as int, loops@.len() as int).drop_first() =~= loops@.subrange(
            i + 1,
            loops@.len() as int,
        ));
        if lc.from_action_num as u64 == pos {
            return Some(lc);
        }
        i = i + 1;
    }
    assert(loops@.subrange(i as int, loops@.len() as int).len() == 0);
    None
}

/// Appends the part of `lc`'s block that exists among `n` instructions.
fn push_block(order: &mut Vec<usize>, lc: LoopConfig, n: usize)
    requires
        lc.well_formed(),
    ensures
        final(order)@ == old(order)@ + block(lc, n as int),
{
    let end: u64 = if lc.to_action_num as u64 + 1 <= n as u64 {
        lc.to_action_num as u64 + 1
    } else {
        n as u64
    };
    let mut i: u64 = lc.from_action_num as u64;
    while i < end
        invariant
            lc.from_action_num <= i,
            i <= end || i == lc.from_action_num,
            end <= n,
            end == (if lc.to_action_num + 1 <= n { lc.to_action_num + 1 } else { n as int }),
            order@ == old(order)@ + range_seq(lc.from_action_num as int, i as int),
        decreases end - i,
    {
        order.push(i as usize);
        assert(range_seq(lc.from_action_num as int, i as int).push(i as usize) =~= range_seq(
            lc.from_action_num as int,
            i + 1,
        ));
        i = i + 1;
    }
    if end < lc.from_action_num as u64 {
        assert(range_seq(lc.from_action_num as int, i as int) =~= Seq::<usize>::empty());
    }
    assert(range_seq(lc.from_action_num as int, i as int) =~= block(lc, n as int));
}

/// Produces the order in which the instructions are run: the left-to-right
/// scan of `plan`, with each annotated range expanded in place.
pub fn plan_execution(n: usize, loops: &Vec<LoopConfig>) -> (order: Vec<usize>)
    requires
        loops_well_formed(loops@),
    ensures
        order@ == plan(n as int, loops@),
{
    let mut order: Vec<usize> = Vec::new();
    let mut pos: u64 = 0;
    while pos < n as u64
        invariant
            loops_well_formed(loops@),
            plan(n as int, loops@) == order@ + plan_from(n as int, loops@, pos as int),
        decreases n - pos,
    {
        match find_loop_at(loops, pos) {
            Some(lc) => {
                proof {
                    lemma_first_loop_in(loops@, pos as int);
                }
                let ghost before = order@;
                let mut r: u32 = 0;
                while r < lc.times
                    invariant
                        lc.well_formed(),
                        r <= lc.times,
                        order@ == before + repeat(block(lc, n as int), r as nat),
                    decreases lc.times - r,
                {
                    push_block(&mut order, lc, n);
                    r = r + 1;
                }
                assert(before + plan_from(n as int, loops@, pos as int) =~= order@ + plan_from(
                    n as int,
                    loops@,
                    resume_at(lc, n as int),
                ));
                pos = if lc.to_action_num as u64 + 1 <= n as u64 {
                    lc.to_action_num as u64 + 1
                } else {
                    n as u64
                };
            },
            None => {
                assert(order@ + plan_from(n as int, loops@, pos as int) =~= order@.push(
                    pos as usize,
                ) + plan_from(n as int, loops@, pos + 1));
                order.push(pos as usize);
                pos = pos + 1;
            },
        }
    }
    assert(order@ + plan_from(n as int, loops@, pos as int) =~= order@);
    order
}

/// A range found by `first_loop_at` is one of the given ranges.
proof fn lemma_first_loop_in(loops: Seq<LoopConfig>, pos: int)
    requires
        loops_well_formed(loops),
    ensures
        first_loop_at(loops, pos) matches Some(lc) ==> lc.well_formed() && lc.from_action_num
            == pos,
    decreases loops.len(),
{
    if loops.len() > 0 {
        assert(loops[0].well_formed());
        assert forall|j: int| 0 <= j < loops.drop_first().len() implies #[trigger] loops.drop_first()[j].well_formed() by {
            assert(loops[j + 1].well_formed());
        }
        lemma_first_loop_in(loops.drop_first(), pos);
    }
}

/// `repeat(s, k)` is `k * |s|` long.
pub proof fn lemma_repeat_len(s: Seq<usize>, k: nat)
    ensures
        repeat(s, k).len() == k * s.len(),
    decreases k,
{
    if k > 0 {
        lemma_repeat_len(s, (k - 1) as nat);
        assert((k - 1) * s.len() + s.len() == k * s.len()) by (nonlinear_arith);
        assert(repeat(s, k).len() == repeat(s, (k - 1) as nat).len() + s.len());
    } else {
        assert(k * s.len() == 0) by (nonlinear_arith)
            requires
                k == 0,
        ;
    }
}

/// Copy `r` of `s` in `repeat(s, k)` starts at `r * |s|`.
pub proof fn lemma_repeat_index(s: Seq<usize>, k: nat, r: int, j: int)
    requires
        0 <= r < k,
        0 <= j < s.len(),
    ensures
        r * s.len() + j < repeat(s, k).len(),
        repeat(s, k)[r * s.len() + j] == s[j],
    decreases k,
{
    lemma_repeat_len(s, k);
    lemma_repeat_len(s, (k - 1) as nat);
    assert(r * s.len() + j < k * s.len()) by (nonlinear_arith)
        requires
            r < k,
            j < s.len(),
    ;
    if r < k - 1 {
        assert(r * s.len() + j < (k - 1) * s.len()) by (nonlinear_arith)
            requires
                r < k - 1,
                j < s.len(),
        ;
        lemma_repeat_index(s, (k - 1) as nat, r, j);
    }
}

/// Every element of `repeat(s, k)` is an element of `s`.
pub proof fn lemma_repeat_elements(s: Seq<usize>, k: nat, lo: int, hi: int)
    requires
        forall|j: int| 0 <= j < s.len() ==> lo <= #[trigger] s[j] < hi,
    ensures
        forall|i: int| 0 <= i < repeat(s, k).len() ==> lo <= #[trigger] repeat(s, k)[i] < hi,
    decreases k,
{
    if k > 0 {
        lemma_repeat_elements(s, (k - 1) as nat, lo, hi);
        let p = repeat(s, (k - 1) as nat);
        assert forall|i: int| 0 <= i < repeat(s, k).len() implies lo <= #[trigger] repeat(s, k)[i]
            < hi by {
            if i >= p.len() {
                assert(repeat(s, k)[i] == s[i - p.len()]);
            } else {
                assert(repeat(s, k)[i] == p[i]);
            }
        }
    }
}

/// Every index that the order from `pos` on holds lies in `[pos, n)`.
pub proof fn lemma_plan_from_bounds(n: int, loops: Seq<LoopConfig>, pos: int)
    requires
        loops_well_formed(loops),
        0 <= pos,
        n <= usize::MAX,
    ensures
        forall|i: int|
            0 <= i < plan_from(n, loops, pos).len() ==> pos <= #[trigger] plan_from(n, loops, pos)[i]
                < n,
    decreases n - pos,
{
    if pos < n {
        lemma_first_loop_in(loops, pos);
        match first_loop_at(loops, pos) {
            Some(lc) => {
                let b = block(lc, n);
                let rest = plan_from(n, loops, resume_at(lc, n));
                lemma_plan_from_bounds(n, loops, resume_at(lc, n));
                assert forall|j: int| 0 <= j < b.len() implies pos <= #[trigger] b[j] < resume_at(
                    lc,
                    n,
                ) by {}
                lemma_repeat_elements(b, lc.times as nat, pos, resume_at(lc, n));
                let r = repeat(b, lc.times as nat);
                assert forall|i: int| 0 <= i < plan_from(n, loops, pos).len() implies pos
                    <= #[trigger] plan_from(n, loops, pos)[i] < n by {
                    if i >= r.len() {
                        assert(plan_from(n, loops, pos)[i] == rest[i - r.len()]);
                    } else {
                        assert(plan_from(n, loops, pos)[i] == r[i]);
                    }
                }
            },
            None => {
                lemma_plan_from_bounds(n, loops, pos + 1);
                let rest = plan_from(n, loops, pos + 1);
                assert forall|i: int| 0 <= i < plan_from(n, loops, pos).len() implies pos
                    <= #[trigger] plan_from(n, loops, pos)[i] < n by {
                    if i > 0 {
                        assert(plan_from(n, loops, pos)[i] == rest[i - 1]);
                    }
                }
            },
        }
    }
}

/// The scan reaches position `a` when no range that it honours before `a`
/// reaches `a`; what it has emitted by then lies below `a`.
pub proof fn lemma_scan_reaches(n: int, loops: Seq<LoopConfig>, p: int, a: int) -> (prefix: Seq<
    usize,
>)
    requires
        loops_well_formed(loops),
        0 <= p <= a <= n,
        n <= usize::MAX,
        forall|j: int|
            p <= j < a ==> (#[trigger] first_loop_at(loops, j) matches Some(l) ==> l.to_action_num
                < a),
    ensures
        plan_from(n, loops, p) == prefix + plan_from(n, loops, a),
        forall|i: int| 0 <= i < prefix.len() ==> p <= #[trigger] prefix[i] < a,
    decreases a - p,
{
    if p == a {
        assert(plan_from(n, loops, p) =~= Seq::<usize>::empty() + plan_from(n, loops, a));
        Seq::empty()
    } else {
        lemma_first_loop_in(loops, p);
        match first_loop_at(loops, p) {
            Some(lc) => {
                let next = resume_at(lc, n);
                let tail = lemma_scan_reaches(n, loops, next, a);
                let r = repeat(block(lc, n), lc.times as nat);
                lemma_repeat_elements(block(lc, n), lc.times as nat, p, next);
                let prefix = r + tail;
                assert(plan_from(n, loops, p) =~= prefix + plan_from(n, loops, a));
                assert forall|i: int| 0 <= i < prefix.len() implies p <= #[trigger] prefix[i]
                    < a by {
                    if i >= r.len() {
                        assert(prefix[i] == tail[i - r.len()]);
                    } else {
                        assert(prefix[i] == r[i]);
                    }
                }
                prefix
            },
            None => {
                let tail = lemma_scan_reaches(n, loops, p + 1, a);
                let prefix = seq![p as usize] + tail;
                assert(plan_from(n, loops, p) =~= prefix + plan_from(n, loops, a));
                assert forall|i: int| 0 <= i < prefix.len() implies p <= #[trigger] prefix[i]
                    < a by {
                    if i > 0 {
                        assert(prefix[i] == tail[i - 1]);
                    }
                }
                prefix
            },
        }
    }
}

/// A range that is run zero times is skipped whole: the order goes from what
/// came before the range straight to the position just past its end, and
/// holds no index of the range.
pub proof fn lemma_zero_times_skips_range(n: int, loops: Seq<LoopConfig>, lc: LoopConfig) -> (prefix: Seq<usize>)
    requires
        loops_well_formed(loops),
        lc.well_formed(),
        lc.times == 0,
        lc.from_action_num < n <= usize::MAX,
        first_loop_at(loops, lc.from_action_num as int) == Some(lc),
        forall|j: int|
            0 <= j < lc.from_action_num ==> (#[trigger] first_loop_at(loops, j) matches Some(l)
                ==> l.to_action_num < lc.from_action_num),
    ensures
        plan(n, loops) == prefix + plan_from(n, loops, resume_at(lc, n)),
        resume_at(lc, n) == lc.to_action_num + 1 || resume_at(lc, n) == n,
        forall|i: int|
            0 <= i < plan(n, loops).len() ==> !(lc.from_action_num <= #[trigger] plan(n, loops)[i]
                <= lc.to_action_num),
{
    let a = lc.from_action_num as int;
    let prefix = lemma_scan_reaches(n, loops, 0, a);
    let rest = plan_from(n, loops, resume_at(lc, n));
    assert(repeat(block(lc, n), 0) =~= Seq::<usize>::empty());
    assert(plan_from(n, loops, a) =~= rest);
    lemma_plan_from_bounds(n, loops, resume_at(lc, n));
    assert forall|i: int| 0 <= i < plan(n, loops).len() implies !(lc.from_action_num
        <= #[trigger] plan(n, loops)[i] <= lc.to_action_num) by {
        if i >= prefix.len() {
            assert(plan(n, loops)[i] == rest[i - prefix.len()]);
        } else {
            assert(plan(n, loops)[i] == prefix[i]);
        }
    }
    prefix
}

/// A range `[a, b]` run `k > 0` times puts the block `a..=b` into the order
/// `k` times in a row, `k * (b - a + 1)` indices in all, right after what
/// came before the range; then the scan goes on at `b + 1`.
pub proof fn lemma_range_repeated(n: int, loops: Seq<LoopConfig>, lc: LoopConfig) -> (prefix: Seq<
    usize,
>)
    requires
        loops_well_formed(loops),
        lc.well_formed(),
        lc.times > 0,
        lc.to_action_num < n <= usize::MAX,
        first_loop_at(loops, lc.from_action_num as int) == Some(lc),
        forall|j: int|
            0 <= j < lc.from_action_num ==> (#[trigger] first_loop_at(loops, j) matches Some(l)
                ==> l.to_action_num < lc.from_action_num),
    ensures
        ({
            let a = lc.from_action_num as int;
            let b = lc.to_action_num as int;
            let k = lc.times as int;
            let len = k * (b - a + 1);
            &&& plan(n, loops) == prefix + repeat(range_seq(a, b + 1), lc.times as nat)
                + plan_from(n, loops, b + 1)
            &&& forall|i: int| 0 <= i < prefix.len() ==> #[trigger] prefix[i] < a
            &&& repeat(range_seq(a, b + 1), lc.times as nat).len() == len
            &&& forall|r: int, j: int|
                0 <= r < k && 0 <= j <= b - a ==> #[trigger] plan(n, loops)[prefix.len() + r * (b
                    - a + 1) + j] == a + j
            &&& (b + 1 < n && first_loop_at(loops, b + 1) is None) ==> plan(n, loops)[prefix.len()
                + len] == b + 1
        }),
{
    let a = lc.from_action_num as int;
    let b = lc.to_action_num as int;
    let k = lc.times as int;
    let prefix = lemma_scan_reaches(n, loops, 0, a);
    let blk = range_seq(a, b + 1);
    assert(block(lc, n) == blk);
    assert(resume_at(lc, n) == b + 1);
    let r = repeat(blk, lc.times as nat);
    let rest = plan_from(n, loops, b + 1);
    assert(plan(n, loops) =~= prefix + r + rest);
    lemma_repeat_len(blk, lc.times as nat);
    assert forall|ri: int, j: int| 0 <= ri < k && 0 <= j <= b - a implies #[trigger] plan(
        n,
        loops,
    )[prefix.len() + ri * (b - a + 1) + j] == a + j by {
        lemma_repeat_index(blk, lc.times as nat, ri, j);
        assert((prefix + r + rest)[prefix.len() + ri * (b - a + 1) + j] == r[ri * (b - a + 1) + j]);
    }
    if b + 1 < n && first_loop_at(loops, b + 1) is None {
        assert(rest == seq![(b + 1) as usize] + plan_from(n, loops, b + 2));
        assert(rest[0] == b + 1);
        assert((prefix + r + rest)[prefix.len() + r.len() as int] == rest[0]);
    }
    prefix
}

/// The planner keeps no state between runs: two runs on the same instruction
/// count and ranges give the same order.
pub proof fn lemma_plan_deterministic(
    n: int,
    loops: Seq<LoopConfig>,
    first: Seq<usize>,
    second: Seq<usize>,
)
    requires
        first == plan(n, loops),
        second == plan(n, loops),
    ensures
        first == second,
{
}

} // verus!
