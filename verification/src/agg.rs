//! Aggregate traversal results: entry counters, total size, and the
//! largest file seen, together with the merge operation that combines
//! the results of sibling subtrees.

use vstd::prelude::*;

verus! {

/// The largest file seen so far: its full path and its size in bytes.
pub struct BiggestFile {
    pub path: String,
    pub size: u64,
}

/// Counters accumulated by a traversal: how many directories and files
/// were counted, their total size, and the largest file among them.
pub struct TraversalResult {
    pub directory_count: u64,
    pub file_count: u64,
    pub total_size: u64,
    pub biggest_file: Option<BiggestFile>,
}

/// Addition that stops at `u64::MAX` instead of wrapping.
pub open spec fn sat_add_spec(a: u64, b: u64) -> u64 {
    if a + b > u64::MAX {
        u64::MAX
    } else {
        (a + b) as u64
    }
}

/// The better of two largest-file candidates: the one with the strictly
/// greater size; the left one wins ties, and a present candidate beats
/// an absent one.
pub open spec fn better_of(a: Option<BiggestFile>, b: Option<BiggestFile>) -> Option<BiggestFile> {
    match (a, b) {
        (Option::None, _) => b,
        (_, Option::None) => a,
        (Option::Some(x), Option::Some(y)) => if y.size > x.size {
            b
        } else {
            a
        },
    }
}

/// The merge of two traversal results: counters and sizes add (stopping
/// at `u64::MAX`), and the largest-file candidates are compared by size,
/// the left operand winning ties.
pub open spec fn merge_spec(a: TraversalResult, b: TraversalResult) -> TraversalResult {
    TraversalResult {
        directory_count: sat_add_spec(a.directory_count, b.directory_count),
        file_count: sat_add_spec(a.file_count, b.file_count),
        total_size: sat_add_spec(a.total_size, b.total_size),
        biggest_file: better_of(a.biggest_file, b.biggest_file),
    }
}

/// The result of a traversal that counted nothing.
pub open spec fn empty_spec() -> TraversalResult {
    TraversalResult {
        directory_count: 0,
        file_count: 0,
        total_size: 0,
        biggest_file: Option::None,
    }
}

/// Addition that stops at `u64::MAX` instead of wrapping.
pub fn sat_add(a: u64, b: u64) -> (r: u64)
    ensures
        r == sat_add_spec(a, b),
{
    if a > u64::MAX - b {
        u64::MAX
    } else {
        a + b
    }
}

impl TraversalResult {
    /// A result with all counters at zero and no largest file.
    pub fn empty() -> (r: TraversalResult)
        ensures
            r == empty_spec(),
    {
        TraversalResult {
            directory_count: 0,
            file_count: 0,
            total_size: 0,
            biggest_file: Option::None,
        }
    }

    /// Combine this result with the result of another subtree.
    pub fn merge(self, other: TraversalResult) -> (r: TraversalResult)
        ensures
            r == merge_spec(self, other),
    {
        let biggest_file = match (self.biggest_file, other.biggest_file) {
            (Option::None, b) => b,
            (a, Option::None) => a,
            (Option::Some(x), Option::Some(y)) => if y.size > x.size {
                Option::Some(y)
            } else {
                Option::Some(x)
            },
        };
        TraversalResult {
            directory_count: sat_add(self.directory_count, other.directory_count),
            file_count: sat_add(self.file_count, other.file_count),
            total_size: sat_add(self.total_size, other.total_size),
            biggest_file,
        }
    }
}

/// Saturating addition is monotone in both operands.
pub proof fn lemma_sat_add_monotone(a1: u64, b1: u64, a2: u64, b2: u64)
    requires
        a1 <= a2,
        b1 <= b2,
    ensures
        sat_add_spec(a1, b1) <= sat_add_spec(a2, b2),
{
}

/// A merge never loses anything: both counters and the total size are
/// at least what either operand held, and the largest-file candidate
/// never shrinks.
pub proof fn lemma_merge_grows(a: TraversalResult, b: TraversalResult)
    ensures
        merge_spec(a, b).directory_count >= a.directory_count,
        merge_spec(a, b).file_count >= a.file_count,
        merge_spec(a, b).total_size >= a.total_size,
        merge_spec(a, b).directory_count >= b.directory_count,
        merge_spec(a, b).file_count >= b.file_count,
        merge_spec(a, b).total_size >= b.total_size,
        (match (merge_spec(a, b).biggest_file, a.biggest_file) {
            (Option::Some(m), Option::Some(x)) => m.size >= x.size,
            (Option::None, Option::Some(_)) => false,
            _ => true,
        }),
{
}

/// Merging with the empty result, on either side, changes nothing.
pub proof fn lemma_merge_empty(a: TraversalResult)
    ensures
        merge_spec(a, empty_spec()) == a,
        merge_spec(empty_spec(), a) == a,
{
}

/// Merge is associative: folding child results into a parent gives the
/// same total whichever way the folds are grouped.
pub proof fn lemma_merge_associative(a: TraversalResult, b: TraversalResult, c: TraversalResult)
    ensures
        merge_spec(merge_spec(a, b), c) == merge_spec(a, merge_spec(b, c)),
{
}

/// Counters and total size do not depend on the order of a merge; the
/// largest file does not either, except that on a size tie the operand
/// merged first wins.
pub proof fn lemma_merge_counts_commutative(a: TraversalResult, b: TraversalResult)
    ensures
        merge_spec(a, b).directory_count == merge_spec(b, a).directory_count,
        merge_spec(a, b).file_count == merge_spec(b, a).file_count,
        merge_spec(a, b).total_size == merge_spec(b, a).total_size,
        (match (a.biggest_file, b.biggest_file) {
            (Option::Some(x), Option::Some(y)) => x.size != y.size,
            _ => true,
        }) ==> merge_spec(a, b).biggest_file == merge_spec(b, a).biggest_file,
{
}

} // verus!
