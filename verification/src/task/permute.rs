//! A mutable sequence state machine that performs one transposition per poll
//! and supports genuine cancellation.
//!
//! Given a base sequence and a target sequence holding the same elements with
//! the same multiplicities, each poll swaps the first out-of-position element
//! into its place.  Every step fixes at least one position for good, so a run
//! over a sequence of length `n` completes within `n - 1` steps and ends with
//! the current sequence equal to the target.  An abort request freezes the
//! step count: the next poll observes the flag, skips the stepping logic
//! entirely and completes with the count as it stood.

use vstd::prelude::*;
use vstd::slice::slice_to_vec;

use crate::ext_fut::evolves_to;
use crate::ext_fut::FutureExt;
use crate::ext_fut::Poll;
use crate::ext_fut::Suspendable;
use crate::runtime::SimpleWaker;

verus! {

/// Number of occurrences of `x` in `s` at or after position `k`.
pub open spec fn count_from(s: Seq<u64>, x: u64, k: int) -> nat
    decreases s.len() - k,
{
    if k < 0 || k >= s.len() {
        0
    } else {
        (if s[k] == x {
            1nat
        } else {
            0nat
        }) + count_from(s, x, k + 1)
    }
}

/// Number of occurrences of `x` in `s`.
pub open spec fn count_of(s: Seq<u64>, x: u64) -> nat {
    count_from(s, x, 0)
}

/// Whether `a` and `b` hold the same elements with the same multiplicities.
pub open spec fn is_permutation_of(a: Seq<u64>, b: Seq<u64>) -> bool {
    a.len() == b.len() && forall|x: u64| #[trigger] count_of(a, x) == count_of(b, x)
}

/// First position at or after `k` where `a` and `b` differ, or `a.len()`
/// if they agree from `k` on.
pub open spec fn mismatch_from(a: Seq<u64>, b: Seq<u64>, k: int) -> int
    decreases a.len() - k,
{
    if k < 0 || k >= a.len() {
        a.len() as int
    } else if a[k] != b[k] {
        k
    } else {
        mismatch_from(a, b, k + 1)
    }
}

/// First position at or after `k` where `s` holds `x`, or `s.len()`.
pub open spec fn find_from(s: Seq<u64>, x: u64, k: int) -> int
    decreases s.len() - k,
{
    if k < 0 || k >= s.len() {
        s.len() as int
    } else if s[k] == x {
        k
    } else {
        find_from(s, x, k + 1)
    }
}

proof fn lemma_mismatch_from_bounds(a: Seq<u64>, b: Seq<u64>, k: int)
    requires
        0 <= k <= a.len(),
    ensures
        k <= mismatch_from(a, b, k) <= a.len(),
        forall|m: int| k <= m < mismatch_from(a, b, k) ==> a[m] == b[m],
        mismatch_from(a, b, k) < a.len() ==> a[mismatch_from(a, b, k)] != b[mismatch_from(a, b, k)],
    decreases a.len() - k,
{
    if k < a.len() && a[k] == b[k] {
        lemma_mismatch_from_bounds(a, b, k + 1);
    }
}

proof fn lemma_find_from_bounds(s: Seq<u64>, x: u64, k: int)
    requires
        0 <= k <= s.len(),
    ensures
        k <= find_from(s, x, k) <= s.len(),
        forall|m: int| k <= m < find_from(s, x, k) ==> s[m] != x,
        find_from(s, x, k) < s.len() ==> s[find_from(s, x, k)] == x,
    decreases s.len() - k,
{
    if k < s.len() && s[k] != x {
        lemma_find_from_bounds(s, x, k + 1);
    }
}

/// A positive tail count yields a witness position.
proof fn lemma_count_from_pos(s: Seq<u64>, x: u64, k: int)
    requires
        0 <= k <= s.len(),
        count_from(s, x, k) > 0,
    ensures
        find_from(s, x, k) < s.len(),
    decreases s.len() - k,
{
    if k < s.len() && s[k] != x {
        lemma_count_from_pos(s, x, k + 1);
    }
}

/// Sequences that agree before `k` and have equal total counts have equal
/// counts from `k` on.
proof fn lemma_counts_agree_from(a: Seq<u64>, b: Seq<u64>, x: u64, k: int)
    requires
        a.len() == b.len(),
        0 <= k <= a.len(),
        forall|m: int| 0 <= m < k ==> a[m] == b[m],
        count_of(a, x) == count_of(b, x),
    ensures
        count_from(a, x, k) == count_from(b, x, k),
    decreases k,
{
    if k > 0 {
        lemma_counts_agree_from(a, b, x, k - 1);
    }
}

/// Replacing one element changes a count only through the replaced and the
/// new element.
proof fn lemma_count_from_update(s: Seq<u64>, i: int, v: u64, x: u64, k: int)
    requires
        0 <= k <= s.len(),
        0 <= i < s.len(),
    ensures
        k <= i ==> count_from(s.update(i, v), x, k) == count_from(s, x, k) - (if s[i] == x {
            1int
        } else {
            0int
        }) + (if v == x {
            1int
        } else {
            0int
        }),
        i < k ==> count_from(s.update(i, v), x, k) == count_from(s, x, k),
    decreases s.len() - k,
{
    if k < s.len() {
        lemma_count_from_update(s, i, v, x, k + 1);
    }
}

/// Swapping two positions preserves every count.
proof fn lemma_count_swap(s: Seq<u64>, i: int, j: int, x: u64)
    requires
        0 <= i < s.len(),
        0 <= j < s.len(),
    ensures
        count_of(s.update(i, s[j]).update(j, s[i]), x) == count_of(s, x),
{
    if i == j {
        assert(s.update(i, s[j]).update(j, s[i]) =~= s);
    } else {
        let t = s.update(i, s[j]);
        lemma_count_from_update(s, i, s[j], x, 0);
        lemma_count_from_update(t, j, s[i], x, 0);
    }
}

/// Swapping two positions preserves being a permutation of the target.
proof fn lemma_swap_preserves_permutation(a: Seq<u64>, b: Seq<u64>, i: int, j: int)
    requires
        is_permutation_of(a, b),
        0 <= i < a.len(),
        0 <= j < a.len(),
    ensures
        is_permutation_of(a.update(i, a[j]).update(j, a[i]), b),
{
    let a2 = a.update(i, a[j]).update(j, a[i]);
    assert forall|x: u64| #[trigger] count_of(a2, x) == count_of(b, x) by {
        lemma_count_swap(a, i, j, x);
    }
}

/// In a permutation pair agreeing before a mismatch position `i`, the
/// element `b[i]` occurs in `a` strictly after `i`.
proof fn lemma_partner_exists(a: Seq<u64>, b: Seq<u64>, i: int)
    requires
        is_permutation_of(a, b),
        0 <= i < a.len(),
        forall|m: int| 0 <= m < i ==> a[m] == b[m],
        a[i] != b[i],
    ensures
        i + 1 <= find_from(a, b[i], i + 1) < a.len(),
    decreases 0int,
{
    let x = b[i];
    lemma_counts_agree_from(a, b, x, i);
    assert(count_from(b, x, i) == 1nat + count_from(b, x, i + 1));
    assert(count_from(a, x, i) == count_from(a, x, i + 1));
    lemma_count_from_pos(a, x, i + 1);
    lemma_find_from_bounds(a, x, i + 1);
}

/// If a permutation pair agrees everywhere before the last position, it
/// agrees there too.
proof fn lemma_last_position_forced(a: Seq<u64>, b: Seq<u64>)
    requires
        is_permutation_of(a, b),
        a.len() >= 1,
        forall|m: int| 0 <= m < a.len() - 1 ==> a[m] == b[m],
    ensures
        a[a.len() - 1] == b[a.len() - 1],
{
    let i = a.len() - 1;
    let x = b[i];
    lemma_counts_agree_from(a, b, x, i);
    assert(count_from(b, x, i + 1) == 0);
    assert(count_from(b, x, i) == 1nat + count_from(b, x, i + 1));
    assert(count_from(a, x, i + 1) == 0);
    assert(count_from(a, x, i) == (if a[i] == x {
        1nat
    } else {
        0nat
    }) + count_from(a, x, i + 1));
}

/// Occurrences of `x` in `v`.
fn count_matches(v: &[u64], x: u64) -> (c: usize)
    ensures
        c == count_of(v@, x),
{
    let n = v.len();
    let mut c: usize = 0;
    let mut i: usize = 0;
    while i < n
        invariant
            n == v@.len(),
            i <= n,
            c <= i,
            c + count_from(v@, x, i as int) == count_of(v@, x),
        decreases n - i,
    {
        if v[i] == x {
            c = c + 1;
        }
        i = i + 1;
    }
    c
}

/// Whether `a` and `b` hold the same elements with the same multiplicities.
pub fn check_permutation(a: &[u64], b: &[u64]) -> (r: bool)
    ensures
        r == is_permutation_of(a@, b@),
{
    if a.len() != b.len() {
        return false;
    }
    let n = a.len();
    let mut i: usize = 0;
    while i < n
        invariant
            n == a@.len(),
            n == b@.len(),
            i <= n,
            forall|m: int| 0 <= m < i ==> count_of(a@, #[trigger] a@[m]) == count_of(b@, a@[m]),
        decreases n - i,
    {
        if count_matches(a, a[i]) != count_matches(b, a[i]) {
            return false;
        }
        i = i + 1;
    }
    let mut j: usize = 0;
    while j < n
        invariant
            n == a@.len(),
            n == b@.len(),
            j <= n,
            forall|m: int| 0 <= m < n ==> count_of(a@, #[trigger] a@[m]) == count_of(b@, a@[m]),
            forall|m: int| 0 <= m < j ==> count_of(a@, #[trigger] b@[m]) == count_of(b@, b@[m]),
        decreases n - j,
    {
        if count_matches(a, b[j]) != count_matches(b, b[j]) {
            return false;
        }
        j = j + 1;
    }
    proof {
        assert forall|x: u64| #[trigger] count_of(a@, x) == count_of(b@, x) by {
            if count_of(a@, x) > 0 {
                lemma_count_from_pos(a@, x, 0);
                lemma_find_from_bounds(a@, x, 0);
                let w = find_from(a@, x, 0);
                assert(a@[w] == x);
                assert(count_of(a@, a@[w]) == count_of(b@, a@[w]));
            } else if count_of(b@, x) > 0 {
                lemma_count_from_pos(b@, x, 0);
                lemma_find_from_bounds(b@, x, 0);
                let w = find_from(b@, x, 0);
                assert(b@[w] == x);
                assert(count_of(a@, b@[w]) == count_of(b@, b@[w]));
            }
        }
    }
    true
}

/// One transposition step of the permuter: swap the first out-of-position
/// element with the later occurrence of the element that belongs there.
pub open spec fn permute_step_seq(cur: Seq<u64>, tgt: Seq<u64>) -> Seq<u64> {
    let i = mismatch_from(cur, tgt, 0);
    if i == cur.len() {
        cur
    } else {
        let j = find_from(cur, tgt[i], i + 1);
        if j == cur.len() {
            cur
        } else {
            cur.update(i, cur[j]).update(j, cur[i])
        }
    }
}

/// First position where `a` and `b` differ.
fn find_mismatch(a: &Vec<u64>, b: &Vec<u64>) -> (i: usize)
    requires
        a@.len() == b@.len(),
    ensures
        i == mismatch_from(a@, b@, 0),
{
    let n = a.len();
    let mut i: usize = 0;
    while i < n
        invariant
            n == a@.len(),
            n == b@.len(),
            i <= n,
            mismatch_from(a@, b@, 0) == mismatch_from(a@, b@, i as int),
        decreases n - i,
    {
        if a[i] != b[i] {
            return i;
        }
        i = i + 1;
    }
    i
}

/// First position at or after `from` where `a` holds `x`, or `a.len()`.
fn find_value_from(a: &Vec<u64>, x: u64, from: usize) -> (j: usize)
    requires
        from <= a@.len(),
    ensures
        j == find_from(a@, x, from as int),
{
    let n = a.len();
    let mut j: usize = from;
    while j < n
        invariant
            n == a@.len(),
            from <= j <= n,
            find_from(a@, x, from as int) == find_from(a@, x, j as int),
        decreases n - j,
    {
        if a[j] == x {
            return j;
        }
        j = j + 1;
    }
    j
}

/// Whether two vectors hold equal sequences.
fn vec_eq(a: &Vec<u64>, b: &Vec<u64>) -> (r: bool)
    ensures
        r == (a@ == b@),
{
    if a.len() != b.len() {
        return false;
    }
    let n = a.len();
    let mut i: usize = 0;
    while i < n
        invariant
            n == a@.len(),
            n == b@.len(),
            i <= n,
            forall|m: int| 0 <= m < i ==> a@[m] == b@[m],
        decreases n - i,
    {
        if a[i] != b[i] {
            return false;
        }
        i = i + 1;
    }
    proof {
        assert(a@ =~= b@);
    }
    true
}

/// A computation that advances a sequence one transposition per poll until
/// it equals the target permutation, reporting the number of steps taken.
pub struct PermuteFuture {
    pub current: Vec<u64>,
    pub target: Vec<u64>,
    pub steps: u64,
    pub aborted: bool,
    pub finished: bool,
}

impl PermuteFuture {
    /// Build a permuter over `base` aiming at `target`.  The two must hold
    /// the same elements with the same multiplicities; a caller that cannot
    /// guarantee that uses [`permute`], which checks first.
    pub fn new(base: &[u64], target: &[u64]) -> (p: PermuteFuture)
        requires
            is_permutation_of(base@, target@),
        ensures
            p.wf(),
            !p.done(),
            p.current@ == base@,
            p.target@ == target@,
            p.steps == 0,
            !p.aborted,
    {
        proof {
            lemma_mismatch_from_bounds(base@, target@, 0);
        }
        PermuteFuture {
            current: slice_to_vec(base),
            target: slice_to_vec(target),
            steps: 0,
            aborted: false,
            finished: false,
        }
    }

    /// Execute one transposition step.
    fn permute(&mut self)
        requires
            old(self).wf(),
            !old(self).finished,
            !old(self).aborted,
        ensures
            final(self).target@ == old(self).target@,
            final(self).aborted == old(self).aborted,
            final(self).finished == old(self).finished,
            final(self).current@ == permute_step_seq(old(self).current@, old(self).target@),
            final(self).steps == (if mismatch_from(old(self).current@, old(self).target@, 0)
                < old(self).current@.len() {
                old(self).steps + 1
            } else {
                old(self).steps as int
            }),
            is_permutation_of(final(self).current@, final(self).target@),
            final(self).steps <= mismatch_from(final(self).current@, final(self).target@, 0),
            mismatch_from(old(self).current@, old(self).target@, 0) < old(self).current@.len()
                ==> mismatch_from(final(self).current@, final(self).target@, 0) > mismatch_from(
                old(self).current@,
                old(self).target@,
                0,
            ),
            final(self).current@ == final(self).target@ ==> ((final(self).current@.len() == 0
                ==> final(self).steps == 0) && (final(self).current@.len() >= 1
                ==> final(self).steps <= final(self).current@.len() - 1)),
    {
        let ghost cur0 = self.current@;
        let ghost tgt = self.target@;
        let n = self.current.len();
        proof {
            lemma_mismatch_from_bounds(cur0, tgt, 0);
        }
        let i = find_mismatch(&self.current, &self.target);
        if i == n {
            // everything already matches: the step is a no-op
            proof {
                assert(cur0 =~= tgt);
            }
            return;
        }
        proof {
            lemma_partner_exists(cur0, tgt, i as int);
            if i as int == n - 1 {
                lemma_last_position_forced(cur0, tgt);
            }
        }
        let j = find_value_from(&self.current, self.target[i], i + 1);
        proof {
            lemma_find_from_bounds(cur0, tgt[i as int], i as int + 1);
        }
        let vi = self.current[i];
        let vj = self.current[j];
        self.current.set(i, vj);
        self.current.set(j, vi);
        self.steps = self.steps + 1;
        proof {
            let cur1 = self.current@;
            assert(cur1 == cur0.update(i as int, cur0[j as int]).update(j as int, cur0[i as int]));
            lemma_swap_preserves_permutation(cur0, tgt, i as int, j as int);
            assert forall|m: int| 0 <= m < i as int + 1 implies cur1[m] == tgt[m] by {
                lemma_mismatch_from_bounds(cur0, tgt, 0);
            }
            lemma_mismatch_from_bounds(cur1, tgt, 0);
            if mismatch_from(cur1, tgt, 0) <= i as int {
                assert(cur1[mismatch_from(cur1, tgt, 0)] == tgt[mismatch_from(cur1, tgt, 0)]);
            }
        }
    }
}

impl Suspendable for PermuteFuture {
    type Output = u64;

    open spec fn wf(&self) -> bool {
        &&& is_permutation_of(self.current@, self.target@)
        &&& (!self.finished ==> self.steps <= mismatch_from(self.current@, self.target@, 0))
        &&& ((!self.finished && self.current@ == self.target@) ==> self.steps == 0)
        &&& ((self.finished && !self.aborted) ==> ((self.current@ == self.target@) && (
        self.current@.len() == 0 ==> self.steps == 0) && (self.current@.len() >= 1 ==> self.steps
            <= self.current@.len() - 1)))
    }

    open spec fn done(&self) -> bool {
        self.finished
    }

    open spec fn value(&self) -> u64 {
        self.steps
    }

    open spec fn remaining(&self) -> nat {
        let m = mismatch_from(self.current@, self.target@, 0);
        if 0 <= m <= self.current@.len() {
            (self.current@.len() - m) as nat
        } else {
            0
        }
    }

    open spec fn polls_to(&self, next: Self) -> bool {
        if self.aborted {
            &&& next.current@ == self.current@
            &&& next.target@ == self.target@
            &&& next.steps == self.steps
            &&& next.aborted
            &&& next.finished
        } else {
            let stepped = permute_step_seq(self.current@, self.target@);
            &&& next.current@ == stepped
            &&& next.target@ == self.target@
            &&& next.steps == (if mismatch_from(self.current@, self.target@, 0)
                < self.current@.len() {
                self.steps + 1
            } else {
                self.steps as int
            })
            &&& !next.aborted
            &&& next.finished == (stepped == self.target@)
        }
    }

    fn poll(&mut self, waker: &mut SimpleWaker) -> (r: Poll<u64>) {
        if self.aborted {
            self.finished = true;
            return Poll::Ready(self.steps);
        }
        self.permute();
        if vec_eq(&self.current, &self.target) {
            self.finished = true;
            Poll::Ready(self.steps)
        } else {
            proof {
                let cur0 = old(self).current@;
                let tgt = old(self).target@;
                lemma_mismatch_from_bounds(cur0, tgt, 0);
                if mismatch_from(cur0, tgt, 0) == cur0.len() {
                    // everything matched before the step, so the step was a
                    // no-op and the equality check above would have fired
                    assert(cur0 =~= tgt);
                    assert(false);
                }
                lemma_mismatch_from_bounds(self.current@, self.target@, 0);
            }
            waker.wake();
            Poll::Pending
        }
    }
}

impl FutureExt for PermuteFuture {
    open spec fn aborts_to(&self, next: Self) -> bool {
        &&& next.current@ == self.current@
        &&& next.target@ == self.target@
        &&& next.steps == self.steps
        &&& next.finished == self.finished
        &&& next.aborted
    }

    fn abort(&mut self) {
        self.aborted = true;
    }
}

/// Build a permuter after checking that `base` and `target` hold the same
/// elements with the same multiplicities; `None` reports the fatal
/// construction error.
pub fn permute(base: &[u64], target: &[u64]) -> (r: Option<PermuteFuture>)
    ensures
        r is Some <==> is_permutation_of(base@, target@),
        (match r {
            Some(p) => p.wf() && !p.done() && !p.aborted && p.steps == 0 && p.current@ == base@
                && p.target@ == target@,
            None => true,
        }),
{
    if check_permutation(base, target) {
        Some(PermuteFuture::new(base, target))
    } else {
        None
    }
}

/// Permuter correctness: a run that reaches its terminal state without an
/// abort leaves the current sequence equal to the target, and took at most
/// `len - 1` steps (none at all on an empty sequence).
pub proof fn permuter_completion_correct(p: PermuteFuture)
    requires
        p.wf(),
        p.done(),
        !p.aborted,
    ensures
        p.current@ == p.target@,
        p.target@.len() >= 1 ==> p.value() <= p.target@.len() - 1,
        p.target@.len() == 0 ==> p.value() == 0,
{
}

/// Cancellation: after an abort request, the next poll performs no further
/// stepping and completes immediately with the step count frozen at the
/// moment of cancellation.
pub proof fn permuter_abort_freezes(p: PermuteFuture, mid: PermuteFuture, end: PermuteFuture)
    requires
        p.aborts_to(mid),
        mid.polls_to(end),
    ensures
        end.done(),
        end.value() == p.value(),
        end.steps == p.steps,
        end.current@ == p.current@,
{
}

/// Over any run of polls and abort requests, the target never changes and
/// the step count never decreases.
pub proof fn permuter_run_preserves_target(a: PermuteFuture, b: PermuteFuture, n: nat)
    requires
        evolves_to(a, b, n),
    ensures
        b.target@ == a.target@,
        b.steps >= a.steps,
    decreases n,
{
    if n > 0 {
        let m = choose|m: PermuteFuture|
            (a.polls_to(m) || a.aborts_to(m)) && evolves_to(m, b, (n - 1) as nat);
        permuter_run_preserves_target(m, b, (n - 1) as nat);
    }
}

/// Permuter correctness, end to end: a run that reaches its terminal state
/// without an abort leaves the sequence equal to the target the permuter was
/// built with, after at most `len - 1` transposition steps.
pub proof fn permuter_run_reaches_target(start: PermuteFuture, end: PermuteFuture, n: nat)
    requires
        evolves_to(start, end, n),
        end.wf(),
        end.done(),
        !end.aborted,
    ensures
        end.current@ == start.target@,
        start.target@.len() >= 1 ==> end.value() <= start.target@.len() - 1,
        start.target@.len() == 0 ==> end.value() == 0,
{
    permuter_run_preserves_target(start, end, n);
    permuter_completion_correct(end);
}

/// An abort request is idempotent: a second abort changes nothing further.
pub proof fn permuter_abort_idempotent(p: PermuteFuture, q: PermuteFuture, r: PermuteFuture)
    requires
        p.aborts_to(q),
        q.aborts_to(r),
    ensures
        r.current@ == q.current@,
        r.target@ == q.target@,
        r.steps == q.steps,
        r.finished == q.finished,
        r.aborted == q.aborted,
{
}

} // verus!
