//! File-extension extraction and the filter policy that decides which
//! files are counted.

use vstd::prelude::*;
use vstd::string::StrSliceExecFns;
use crate::casefold::{lower_of, lowercase};
use crate::config::Config;

verus! {

/// The extension of a file name: the characters after the last dot,
/// provided that dot is preceded by at least one character. A name
/// without such a dot has no extension.
pub open spec fn extension_spec(name: Seq<char>) -> Option<Seq<char>>
    decreases name.len(),
{
    if name.len() < 2 {
        Option::None
    } else if name.last() == '.' {
        Option::Some(Seq::empty())
    } else {
        match extension_spec(name.drop_last()) {
            Option::None => Option::None,
            Option::Some(e) => Option::Some(e.push(name.last())),
        }
    }
}

/// If position `i >= 1` holds the last dot of `name`, the extension is
/// everything after it.
proof fn lemma_extension_at(name: Seq<char>, i: int)
    requires
        1 <= i < name.len(),
        name[i] == '.',
        forall|j: int| i < j < name.len() ==> name[j] != '.',
    ensures
        extension_spec(name) == Option::Some(name.subrange(i + 1, name.len() as int)),
    decreases name.len(),
{
    if i == name.len() - 1 {
        assert(name.subrange(i + 1, name.len() as int) =~= Seq::<char>::empty());
    } else {
        lemma_extension_at(name.drop_last(), i);
        assert(name.drop_last().subrange(i + 1, name.len() - 1) =~= name.subrange(
            i + 1,
            name.len() - 1,
        ));
        assert(name.subrange(i + 1, name.len() - 1).push(name.last()) =~= name.subrange(
            i + 1,
            name.len() as int,
        ));
    }
}

/// A name with no dot past its first character has no extension.
proof fn lemma_extension_none(name: Seq<char>)
    requires
        forall|j: int| 1 <= j < name.len() ==> name[j] != '.',
    ensures
        extension_spec(name) is None,
    decreases name.len(),
{
    if name.len() >= 2 {
        lemma_extension_none(name.drop_last());
    }
}

/// The extension of a file name, or `None` where it has none.
pub fn extension_of(name: &str) -> (r: Option<String>)
    ensures
        match (r, extension_spec(name@)) {
            (Option::None, Option::None) => true,
            (Option::Some(e), Option::Some(s)) => e@ == s,
            _ => false,
        },
{
    let len = name.unicode_len();
    let mut i: usize = len;
    while i > 1
        invariant
            i <= len,
            len == name@.len(),
            forall|j: int| i <= j < len ==> name@[j] != '.',
        decreases i,
    {
        if name.get_char(i - 1) == '.' {
            let ext = name.substring_char(i, len).to_owned();
            proof {
                lemma_extension_at(name@, i - 1);
            }
            return Option::Some(ext);
        }
        i = i - 1;
    }
    proof {
        lemma_extension_none(name@);
    }
    Option::None
}

/// Whether `x` occurs in the list `xs`.
pub open spec fn in_list(xs: Seq<Seq<char>>, x: Seq<char>) -> bool {
    exists|i: int| 0 <= i < xs.len() && xs[i] == x
}

/// The filter policy for one file, given the two (already lowercased)
/// filter lists and the file's extension. An only-extension filter, when
/// present, alone decides: the file is kept exactly when its lowercased
/// extension is listed. Otherwise a file without an extension is kept,
/// and one whose lowercased extension is on the ignore list is skipped.
pub open spec fn keep_file_spec(
    only: Option<Seq<Seq<char>>>,
    ignore: Option<Seq<Seq<char>>>,
    ext: Option<Seq<char>>,
) -> bool {
    match only {
        Option::Some(os) => match ext {
            Option::Some(e) => in_list(os, lower_of(e)),
            Option::None => false,
        },
        Option::None => match (ext, ignore) {
            (Option::Some(e), Option::Some(is)) => !in_list(is, lower_of(e)),
            _ => true,
        },
    }
}

/// Whether the string `x` occurs in `xs`.
fn list_contains(xs: &Vec<String>, x: &String) -> (r: bool)
    ensures
        r == in_list(xs.deep_view(), x@),
{
    let mut i: usize = 0;
    while i < xs.len()
        invariant
            i <= xs.len(),
            forall|j: int| 0 <= j < i ==> xs.deep_view()[j] != x@,
        decreases xs.len() - i,
    {
        if xs[i] == *x {
            assert(xs.deep_view()[i as int] == x@);
            return true;
        }
        i = i + 1;
    }
    false
}

/// Decide whether the file named `name` survives the configured
/// extension filters.
pub fn keep_file(cfg: &Config, name: &str) -> (r: bool)
    ensures
        r == keep_file_spec(cfg.only_view(), cfg.ignore_view(), extension_spec(name@)),
{
    let ext = extension_of(name);
    match &cfg.only_extension {
        Option::Some(os) => match ext {
            Option::Some(e) => list_contains(os, &lowercase(e.as_str())),
            Option::None => false,
        },
        Option::None => match (ext, &cfg.ignore_extension) {
            (Option::Some(e), Option::Some(is)) => !list_contains(is, &lowercase(e.as_str())),
            _ => true,
        },
    }
}

/// With an only-extension filter in force, the ignore-extension filter
/// has no effect: any two ignore lists give the same decision.
pub proof fn lemma_only_overrides_ignore(
    only: Seq<Seq<char>>,
    ignore_a: Option<Seq<Seq<char>>>,
    ignore_b: Option<Seq<Seq<char>>>,
    ext: Option<Seq<char>>,
)
    ensures
        keep_file_spec(Option::Some(only), ignore_a, ext) == keep_file_spec(
            Option::Some(only),
            ignore_b,
            ext,
        ),
{
}

} // verus!
