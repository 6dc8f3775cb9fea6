//! A threshold scanner: given a target character, a minimum count and a reset
//! policy, decide whether the target's running count ever reaches the
//! threshold while a text buffer is scanned left to right.
//!
//! The running count is checked before each character is processed, a
//! matching reset character zeroes it, and a character equal to the target
//! then adds one. The scan is pure: it reads the configuration and the
//! buffer and keeps no state across calls.

use vstd::prelude::*;

pub mod laws;

verus! {

/// Which character, if any, zeroes the running count during a scan.
/// Exactly one variant is active per configuration.
#[derive(Clone, Copy, Debug, PartialEq, Eq, Structural)]
pub enum ResetPolicy {
    /// A newline resets the running count to zero.
    ResetOnNewline,
    /// A space resets the running count to zero.
    ResetOnSpace,
    /// No character ever resets the running count.
    NoReset,
}

/// True when encountering `c` zeroes the running count under `policy`.
pub open spec fn resets(policy: ResetPolicy, c: char) -> bool {
    match policy {
        ResetPolicy::ResetOnNewline => c == '\n',
        ResetPolicy::ResetOnSpace => c == ' ',
        ResetPolicy::NoReset => false,
    }
}

/// The running count after scanning all of `s`: each character first applies
/// its reset, if any, and then, if it equals `target`, adds one. When a
/// character both resets and matches the target, the reset happens first, so
/// the character still contributes one toward a fresh run.
pub open spec fn run_count(target: char, policy: ResetPolicy, s: Seq<char>) -> nat
    decreases s.len(),
{
    if s.len() == 0 {
        0
    } else {
        let base = if resets(policy, s.last()) {
            0nat
        } else {
            run_count(target, policy, s.drop_last())
        };
        if s.last() == target {
            base + 1
        } else {
            base
        }
    }
}

/// What the scan decides: the running count is checked before each character
/// of `s` is processed, so the scan succeeds exactly when the count left by
/// some proper prefix reaches the threshold. The check sits inside the
/// per-character loop, so an empty buffer is never observed at all.
pub open spec fn spec_has_count(target: char, threshold: u64, policy: ResetPolicy, s: Seq<char>) -> bool {
    exists|i: int| 0 <= i < s.len() && run_count(target, policy, s.subrange(0, i)) >= threshold
}

/// How many times `target` occurs anywhere in `s`.
pub open spec fn occurrence_count(target: char, s: Seq<char>) -> nat
    decreases s.len(),
{
    if s.len() == 0 {
        0
    } else {
        occurrence_count(target, s.drop_last()) + if s.last() == target {
            1nat
        } else {
            0nat
        }
    }
}

/// `n` copies of `c`.
pub open spec fn repeated(c: char, n: nat) -> Seq<char> {
    Seq::new(n, |k: int| c)
}

/// An immutable scan configuration: the character to count, the minimum
/// running count that satisfies the scan, and the reset policy. Constructed
/// once and read, never mutated.
#[derive(Clone, Copy, Debug, PartialEq, Eq, Structural)]
pub struct Counter {
    /// The single character whose occurrences are counted.
    pub target: char,
    /// The minimum run-count that satisfies the scan.
    pub threshold: u64,
    /// The rule deciding which character, if any, zeroes the running count.
    pub policy: ResetPolicy,
}

impl Counter {
    /// Builds a configuration from its three parts. Never fails: any
    /// character, any threshold and any policy form a valid configuration.
    pub fn new(target: char, threshold: u64, policy: ResetPolicy) -> (c: Counter)
        ensures
            c.target == target,
            c.threshold == threshold,
            c.policy == policy,
    {
        Counter { target, threshold, policy }
    }

    /// Scans `data` left to right and reports whether the running count of
    /// `self.target`, as bounded by `self.policy`, is ever observed at or
    /// above `self.threshold`. The count is checked before each character is
    /// processed, never after the last one.
    pub fn has_count(&self, data: &str) -> (r: bool)
        ensures
            r == spec_has_count(self.target, self.threshold, self.policy, data@),
    {
        let n: usize = data.unicode_len();
        let mut count: u64 = 0;
        let mut i: usize = 0;
        while i < n
            invariant
                n == data@.len(),
                i <= n,
                count == run_count(self.target, self.policy, data@.subrange(0, i as int)),
                forall|j: int| 0 <= j < i ==> run_count(self.target, self.policy, data@.subrange(0, j)) < self.threshold,
            decreases n - i,
        {
            if count >= self.threshold {
                return true;
            }
            let c = data.get_char(i);
            let is_reset = match self.policy {
                ResetPolicy::ResetOnNewline => c == '\n',
                ResetPolicy::ResetOnSpace => c == ' ',
                ResetPolicy::NoReset => false,
            };
            if is_reset {
                count = 0;
            }
            if c == self.target {
                count = count + 1;
            }
            proof {
                let prefix = data@.subrange(0, i + 1);
                assert(prefix.drop_last() =~= data@.subrange(0, i as int));
                assert(prefix.last() == data@[i as int]);
            }
            i = i + 1;
        }
        false
    }
}

} // verus!
