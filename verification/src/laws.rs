//! Properties of the threshold scanner, each proved against the spec that
//! `Counter::has_count` is verified against.

use vstd::prelude::*;

use crate::Counter;
use crate::ResetPolicy;
use crate::occurrence_count;
use crate::repeated;
use crate::resets;
use crate::run_count;
use crate::spec_has_count;

verus! {

/// With a threshold of zero, the very first check already succeeds, so the
/// scan is satisfied by every non-empty buffer and, the check sitting inside
/// the per-character loop, by no empty one.
pub proof fn lemma_threshold_zero(target: char, policy: ResetPolicy, s: Seq<char>)
    ensures
        spec_has_count(target, 0, policy, s) == (s.len() > 0),
{
    if s.len() > 0 {
        assert(s.subrange(0, 0) =~= Seq::<char>::empty());
        assert(run_count(target, policy, s.subrange(0, 0)) >= 0);
        assert(spec_has_count(target, 0, policy, s));
    }
}

/// Under `NoReset` nothing ever zeroes the count, so the running count after
/// any buffer is the plain number of occurrences of the target in it.
proof fn lemma_no_reset_run_count(target: char, s: Seq<char>)
    ensures
        run_count(target, ResetPolicy::NoReset, s) == occurrence_count(target, s),
    decreases s.len(),
{
    if s.len() > 0 {
        lemma_no_reset_run_count(target, s.drop_last());
    }
}

/// A prefix of a buffer holds at most as many occurrences of the target as
/// the whole buffer.
proof fn lemma_occurrence_count_prefix(target: char, s: Seq<char>, i: int)
    requires
        0 <= i <= s.len(),
    ensures
        occurrence_count(target, s.subrange(0, i)) <= occurrence_count(target, s),
    decreases s.len(),
{
    if i == s.len() {
        assert(s.subrange(0, i) =~= s);
    } else {
        assert(s.drop_last().subrange(0, i) =~= s.subrange(0, i));
        lemma_occurrence_count_prefix(target, s.drop_last(), i);
    }
}

/// Under `NoReset` the scan agrees with plain occurrence counting: it
/// succeeds exactly when the buffer holds at least `threshold` occurrences
/// of the target. The running count is checked before each character and
/// never after the last one, so the equivalence asks that a threshold that
/// is reached at all is already reached before the final character.
pub proof fn lemma_no_reset_counts_occurrences(target: char, threshold: u64, s: Seq<char>)
    requires
        occurrence_count(target, s) >= threshold ==> s.len() > 0 && occurrence_count(target, s.drop_last()) >= threshold,
    ensures
        spec_has_count(target, threshold, ResetPolicy::NoReset, s) <==> occurrence_count(target, s) >= threshold,
{
    if spec_has_count(target, threshold, ResetPolicy::NoReset, s) {
        let i = choose|i: int| 0 <= i < s.len() && run_count(target, ResetPolicy::NoReset, s.subrange(0, i)) >= threshold;
        lemma_no_reset_run_count(target, s.subrange(0, i));
        lemma_occurrence_count_prefix(target, s, i);
    }
    if occurrence_count(target, s) >= threshold {
        let last: int = s.len() - 1;
        assert(s.drop_last() =~= s.subrange(0, last));
        lemma_no_reset_run_count(target, s.subrange(0, last));
        assert(run_count(target, ResetPolicy::NoReset, s.subrange(0, last)) >= threshold);
        assert(spec_has_count(target, threshold, ResetPolicy::NoReset, s));
    }
}

/// Appending characters never loses a success under `NoReset`: once the
/// threshold has been observed while scanning `s`, it is observed at the
/// same position while scanning `s` followed by `ext`.
pub proof fn lemma_no_reset_monotone(target: char, threshold: u64, s: Seq<char>, ext: Seq<char>)
    requires
        spec_has_count(target, threshold, ResetPolicy::NoReset, s),
    ensures
        spec_has_count(target, threshold, ResetPolicy::NoReset, s + ext),
{
    let i = choose|i: int| 0 <= i < s.len() && run_count(target, ResetPolicy::NoReset, s.subrange(0, i)) >= threshold;
    assert((s + ext).subrange(0, i) =~= s.subrange(0, i));
    assert(0 <= i < (s + ext).len());
    assert(run_count(target, ResetPolicy::NoReset, (s + ext).subrange(0, i)) >= threshold);
}

/// A run of `n` copies of the target, under a policy that the target does
/// not reset, leaves a running count of exactly `n`.
proof fn lemma_run_count_repeated(target: char, policy: ResetPolicy, n: nat)
    requires
        !resets(policy, target),
    ensures
        run_count(target, policy, repeated(target, n)) == n,
    decreases n,
{
    if n > 0 {
        assert(repeated(target, n).drop_last() =~= repeated(target, (n - 1) as nat));
        assert(repeated(target, n).last() == target);
        lemma_run_count_repeated(target, policy, (n - 1) as nat);
    }
}

/// After a newline, under `ResetOnNewline`, the count restarts: whatever
/// came before, a trailing run of `k` targets leaves a count of exactly `k`.
proof fn lemma_run_count_after_newline(target: char, s: Seq<char>, k: nat)
    requires
        target != '\n',
    ensures
        run_count(target, ResetPolicy::ResetOnNewline, s + seq!['\n'] + repeated(target, k)) == k,
    decreases k,
{
    let t = s + seq!['\n'] + repeated(target, k);
    if k == 0 {
        assert(t.last() == '\n');
        assert(resets(ResetPolicy::ResetOnNewline, t.last()));
    } else {
        assert(t.drop_last() =~= s + seq!['\n'] + repeated(target, (k - 1) as nat));
        assert(t.last() == target);
        lemma_run_count_after_newline(target, s, (k - 1) as nat);
    }
}

/// In a buffer of newlines alone, under `ResetOnNewline`, each newline first
/// resets the count and only then may match the target, so the count after
/// any non-empty such buffer is at most one.
proof fn lemma_run_count_all_newlines(n: nat)
    ensures
        run_count('\n', ResetPolicy::ResetOnNewline, repeated('\n', n)) == if n == 0 { 0nat } else { 1nat },
    decreases n,
{
    if n > 0 {
        assert(repeated('\n', n).drop_last() =~= repeated('\n', (n - 1) as nat));
        assert(repeated('\n', n).last() == '\n');
        lemma_run_count_all_newlines((n - 1) as nat);
    }
}

/// A newline between two runs of `threshold - 1` targets keeps every
/// observed count below the threshold: the scan fails on such a buffer.
pub proof fn lemma_newline_reset_blocks(target: char, threshold: u64, buf: Seq<char>)
    requires
        threshold >= 1,
        buf == repeated(target, (threshold - 1) as nat) + seq!['\n'] + repeated(target, (threshold - 1) as nat),
    ensures
        !spec_has_count(target, threshold, ResetPolicy::ResetOnNewline, buf),
{
    let m = (threshold - 1) as nat;
    assert(buf.len() == 2 * m + 1);
    assert forall|i: int| 0 <= i < buf.len() implies run_count(target, ResetPolicy::ResetOnNewline, buf.subrange(0, i)) < threshold by {
        if target == '\n' {
            assert(buf.subrange(0, i) =~= repeated('\n', i as nat));
            lemma_run_count_all_newlines(i as nat);
        } else if i <= m {
            assert(buf.subrange(0, i) =~= repeated(target, i as nat));
            lemma_run_count_repeated(target, ResetPolicy::ResetOnNewline, i as nat);
        } else {
            assert(buf.subrange(0, i) =~= repeated(target, m) + seq!['\n'] + repeated(target, (i - m - 1) as nat));
            lemma_run_count_after_newline(target, repeated(target, m), (i - m - 1) as nat);
        }
    }
}

/// Without the interrupting newline the same run does reach the threshold:
/// the count is checked before each character, so a buffer of more than
/// `threshold` copies of the target satisfies the scan.
pub proof fn lemma_uninterrupted_run_reaches(target: char, threshold: u64, n: nat, buf: Seq<char>)
    requires
        target != '\n',
        n > threshold,
        buf == repeated(target, n),
    ensures
        spec_has_count(target, threshold, ResetPolicy::ResetOnNewline, buf),
{
    assert(buf.subrange(0, threshold as int) =~= repeated(target, threshold as nat));
    lemma_run_count_repeated(target, ResetPolicy::ResetOnNewline, threshold as nat);
    assert(run_count(target, ResetPolicy::ResetOnNewline, buf.subrange(0, threshold as int)) >= threshold);
    assert(0 <= threshold < buf.len());
}

/// The scan is pure: two evaluations on the same configuration and buffer
/// yield the same result, since the result is a function of the
/// configuration and the buffer alone.
pub proof fn lemma_has_count_deterministic(c: Counter, s: Seq<char>, r1: bool, r2: bool)
    requires
        r1 == spec_has_count(c.target, c.threshold, c.policy, s),
        r2 == spec_has_count(c.target, c.threshold, c.policy, s),
    ensures
        r1 == r2,
{
}

} // verus!
