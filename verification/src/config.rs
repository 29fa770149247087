//! Traversal configuration: the root path and the flags and filters that
//! govern a traversal. Immutable once built.

use vstd::prelude::*;
use crate::casefold::{lower_of, lowercase, lowered};

verus! {

/// The parameters of one traversal. Extension filters are stored in
/// lowercase so that matching is case-insensitive. The root path is
/// taken as given: whether it names a readable directory is checked by
/// the caller before traversal begins.
pub struct Config {
    pub root: String,
    pub recursive: bool,
    pub max_depth: Option<u64>,
    pub quiet: bool,
    pub ignore_extension: Option<Vec<String>>,
    pub only_extension: Option<Vec<String>>,
    pub human_unit: bool,
}

impl Config {
    /// The only-extension filter as sequences of characters.
    pub open spec fn only_view(self) -> Option<Seq<Seq<char>>> {
        match self.only_extension {
            Option::None => Option::None,
            Option::Some(v) => Option::Some(v.deep_view()),
        }
    }

    /// The ignore-extension filter as sequences of characters.
    pub open spec fn ignore_view(self) -> Option<Seq<Seq<char>>> {
        match self.ignore_extension {
            Option::None => Option::None,
            Option::Some(v) => Option::Some(v.deep_view()),
        }
    }

    /// Whether a directory whose contents sit at `depth` descents below
    /// the root may still be listed under the configured depth limit.
    pub open spec fn depth_ok(self, depth: u64) -> bool {
        match self.max_depth {
            Option::None => true,
            Option::Some(m) => depth <= m,
        }
    }

    /// Build a configuration, folding both extension filters to
    /// lowercase.
    pub fn new(
        root: String,
        recursive: bool,
        max_depth: Option<u64>,
        quiet: bool,
        ignore_extension: Option<Vec<String>>,
        only_extension: Option<Vec<String>>,
        human_unit: bool,
    ) -> (r: Config)
        ensures
            r.root == root,
            r.recursive == recursive,
            r.max_depth == max_depth,
            r.quiet == quiet,
            r.human_unit == human_unit,
            ignore_extension is None ==> r.ignore_extension is None,
            ignore_extension matches Option::Some(v) ==> (r.ignore_extension matches Option::Some(w)
                && w.deep_view() == lowered(v.deep_view())),
            only_extension is None ==> r.only_extension is None,
            only_extension matches Option::Some(v) ==> (r.only_extension matches Option::Some(w)
                && w.deep_view() == lowered(v.deep_view())),
    {
        let ignore_extension = match ignore_extension {
            Option::None => Option::None,
            Option::Some(v) => Option::Some(lower_all(&v)),
        };
        let only_extension = match only_extension {
            Option::None => Option::None,
            Option::Some(v) => Option::Some(lower_all(&v)),
        };
        Config { root, recursive, max_depth, quiet, ignore_extension, only_extension, human_unit }
    }
}

/// Fold every string of a list to lowercase.
fn lower_all(v: &Vec<String>) -> (r: Vec<String>)
    ensures
        r.deep_view() == lowered(v.deep_view()),
{
    let mut r: Vec<String> = Vec::new();
    let mut i: usize = 0;
    while i < v.len()
        invariant
            i <= v.len(),
            r.deep_view() =~= lowered(v.deep_view().subrange(0, i as int)),
        decreases v.len() - i,
    {
        let ghost prev = r.deep_view();
        let s = lowercase(v[i].as_str());
        let ghost sv = s@;
        r.push(s);
        proof {
            assert(sv == lower_of(v.deep_view()[i as int]));
            assert(r.deep_view() =~= prev.push(sv));
            assert(v.deep_view().subrange(0, (i + 1) as int) =~= v.deep_view().subrange(
                0,
                i as int,
            ).push(v.deep_view()[i as int]));
            assert(r.deep_view() =~= lowered(v.deep_view().subrange(0, (i + 1) as int)));
        }
        i = i + 1;
    }
    proof {
        assert(v.deep_view().subrange(0, v.len() as int) =~= v.deep_view());
    }
    r
}

} // verus!
