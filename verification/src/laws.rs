//! Properties of the traversal proved once and for all: what a
//! non-recursive walk counts, what an unreadable subtree contributes,
//! how the depth limit bounds and orders results, and that the
//! only-extension filter makes the ignore list irrelevant.

use vstd::prelude::*;
use crate::agg::{
    empty_spec, lemma_merge_empty, lemma_sat_add_monotone, merge_spec, sat_add_spec,
    TraversalResult,
};
use crate::config::Config;
use crate::filter::{extension_spec, keep_file_spec};
use crate::walk::{
    dir_result, file_result, walk_entry_spec, walk_listing_spec, walk_seq_spec, DirListing,
    EntryData,
};

verus! {

/// How many entries of the list are directories.
pub open spec fn count_dirs(s: Seq<EntryData>) -> nat
    decreases s,
{
    if s.len() == 0 {
        0
    } else {
        count_dirs(s.drop_last()) + (match s.last() {
            EntryData::Dir { .. } => 1nat,
            _ => 0nat,
        })
    }
}

/// The size of a file entry that the traversal counts: present exactly
/// when the entry is a file that survives the filter and whose size
/// could be read.
pub open spec fn counted_file_size(cfg: Config, e: EntryData) -> Option<u64> {
    match e {
        EntryData::File { name, size, .. } => if keep_file_spec(
            cfg.only_view(),
            cfg.ignore_view(),
            extension_spec(name@),
        ) {
            size
        } else {
            Option::None
        },
        _ => Option::None,
    }
}

/// How many entries of the list are counted files.
pub open spec fn count_files(cfg: Config, s: Seq<EntryData>) -> nat
    decreases s,
{
    if s.len() == 0 {
        0
    } else {
        count_files(cfg, s.drop_last()) + (match counted_file_size(cfg, s.last()) {
            Option::Some(_) => 1nat,
            Option::None => 0nat,
        })
    }
}

/// The sizes of the counted files of the list, added up (stopping at
/// `u64::MAX`).
pub open spec fn sum_sizes(cfg: Config, s: Seq<EntryData>) -> u64
    decreases s,
{
    if s.len() == 0 {
        0
    } else {
        sat_add_spec(
            sum_sizes(cfg, s.drop_last()),
            match counted_file_size(cfg, s.last()) {
                Option::Some(sz) => sz,
                Option::None => 0,
            },
        )
    }
}

/// Neither count can exceed the number of entries.
proof fn lemma_counts_bounded(cfg: Config, s: Seq<EntryData>)
    ensures
        count_dirs(s) <= s.len(),
        count_files(cfg, s) <= s.len(),
    decreases s,
{
    if s.len() > 0 {
        lemma_counts_bounded(cfg, s.drop_last());
    }
}

/// A non-recursive traversal counts exactly the immediate
/// subdirectories, and exactly the immediate files that survive the
/// filter and have a readable size, with their summed sizes;
/// subdirectory contents are never touched.
pub proof fn lemma_nonrecursive_counts(cfg: Config, dp: Seq<char>, s: Seq<EntryData>, depth: u64)
    requires
        !cfg.recursive,
        s.len() <= u64::MAX,
    ensures
        walk_seq_spec(cfg, dp, s, depth).0.directory_count == count_dirs(s),
        walk_seq_spec(cfg, dp, s, depth).0.file_count == count_files(cfg, s),
        walk_seq_spec(cfg, dp, s, depth).0.total_size == sum_sizes(cfg, s),
    decreases s,
{
    if s.len() > 0 {
        lemma_nonrecursive_counts(cfg, dp, s.drop_last(), depth);
        lemma_counts_bounded(cfg, s.drop_last());
        let e = walk_entry_spec(cfg, dp, s.last(), depth);
        match s.last() {
            EntryData::File { name, path, size } => {
                if keep_file_spec(cfg.only_view(), cfg.ignore_view(), extension_spec(name@)) {
                    match size {
                        Option::Some(sz) => {
                            assert(e.0 == file_result(path, sz));
                        },
                        Option::None => {
                            assert(e.0 == empty_spec());
                        },
                    }
                } else {
                    assert(e.0 == empty_spec());
                }
            },
            EntryData::Dir { .. } => {
                assert(e.0 == dir_result());
            },
            EntryData::Unknown => {
                assert(e.0 == empty_spec());
            },
        }
    }
}

/// An unreadable subdirectory contributes exactly one counted
/// directory: no files, no size, no largest-file candidate. Its
/// siblings are unaffected, since each entry of a listing is merged
/// into the total independently.
pub proof fn lemma_unreadable_subtree(
    cfg: Config,
    dp: Seq<char>,
    name: String,
    path: String,
    depth: u64,
)
    ensures
        walk_entry_spec(
            cfg,
            dp,
            EntryData::Dir { name, path, listing: DirListing::Unread },
            depth,
        ).0 == dir_result(),
{
    if cfg.recursive {
        let sub = walk_listing_spec(cfg, DirListing::Unread, path@, sat_add_spec(depth, 1));
        assert(sub.0 == empty_spec());
        lemma_merge_empty(dir_result());
    }
}

/// Fields that the descent rules leave alone: everything but the
/// recursive flag and the depth limit.
pub open spec fn same_but_descent(a: Config, b: Config) -> bool {
    a.quiet == b.quiet && a.human_unit == b.human_unit && a.only_extension == b.only_extension
        && a.ignore_extension == b.ignore_extension
}

/// A recursive traversal with a depth limit of zero is the same as a
/// non-recursive one: the root's immediate entries are listed and
/// counted, and nothing below them is touched.
pub proof fn lemma_depth_zero_like_flat(c1: Config, c2: Config, dp: Seq<char>, s: Seq<EntryData>)
    requires
        c1.recursive,
        c1.max_depth == Option::Some(0u64),
        !c2.recursive,
        same_but_descent(c1, c2),
    ensures
        walk_seq_spec(c1, dp, s, 0) == walk_seq_spec(c2, dp, s, 0),
    decreases s,
{
    assert(c1.only_view() == c2.only_view());
    assert(c1.ignore_view() == c2.ignore_view());
    if s.len() > 0 {
        lemma_depth_zero_like_flat(c1, c2, dp, s.drop_last());
        let e1 = walk_entry_spec(c1, dp, s.last(), 0);
        let e2 = walk_entry_spec(c2, dp, s.last(), 0);
        match s.last() {
            EntryData::Dir { path, listing, .. } => {
                let sub = walk_listing_spec(c1, listing, path@, sat_add_spec(0, 1));
                assert(sat_add_spec(0, 1) == 1);
                assert(!c1.depth_ok(1));
                assert(sub.0 == empty_spec());
                lemma_merge_empty(dir_result());
                assert(e1.0 == dir_result());
                assert(e2.0 == dir_result());
                assert(e1.1 =~= e2.1);
            },
            EntryData::File { .. } => {
                assert(e1.0 == e2.0);
                assert(e1.1 =~= e2.1);
            },
            EntryData::Unknown => {
                assert(e1.0 == e2.0);
                assert(e1.1 =~= e2.1);
            },
        }
        assert(e1.1 == e2.1);
        assert(walk_seq_spec(c1, dp, s, 0).0 == walk_seq_spec(c2, dp, s, 0).0);
        assert(walk_seq_spec(c1, dp, s, 0).1 =~= walk_seq_spec(c2, dp, s, 0).1);
    } else {
        assert(walk_seq_spec(c1, dp, s, 0).1 =~= walk_seq_spec(c2, dp, s, 0).1);
    }
}

/// The sizes that a traversal of one entry can reach within the depth
/// limit, added up (stopping at `u64::MAX`): a counted file's own size,
/// or everything reachable below a subdirectory when the traversal is
/// recursive.
pub open spec fn reachable_size_entry(cfg: Config, e: EntryData, depth: u64) -> u64
    decreases e,
{
    match e {
        EntryData::File { .. } => match counted_file_size(cfg, e) {
            Option::Some(sz) => sz,
            Option::None => 0,
        },
        EntryData::Dir { listing, .. } => if cfg.recursive {
            reachable_size_listing(cfg, listing, sat_add_spec(depth, 1))
        } else {
            0
        },
        EntryData::Unknown => 0,
    }
}

/// The reachable sizes below one directory's contents.
pub open spec fn reachable_size_listing(cfg: Config, l: DirListing, depth: u64) -> u64
    decreases l,
{
    if !cfg.depth_ok(depth) {
        0
    } else {
        match l {
            DirListing::Unread => 0,
            DirListing::Read(v) => reachable_size_seq(cfg, v@, depth),
        }
    }
}

/// The reachable sizes of a list of entries, added up.
pub open spec fn reachable_size_seq(cfg: Config, s: Seq<EntryData>, depth: u64) -> u64
    decreases s,
{
    if s.len() == 0 {
        0
    } else {
        sat_add_spec(
            reachable_size_seq(cfg, s.drop_last(), depth),
            reachable_size_entry(cfg, s.last(), depth),
        )
    }
}

/// A traversal's total size is exactly the sum of the sizes of the
/// files reachable within the depth limit.
pub proof fn lemma_total_size_is_reachable_entry(cfg: Config, dp: Seq<char>, e: EntryData, depth: u64)
    ensures
        walk_entry_spec(cfg, dp, e, depth).0.total_size == reachable_size_entry(cfg, e, depth),
    decreases e,
{
    match e {
        EntryData::Dir { path, listing, .. } => {
            if cfg.recursive {
                lemma_total_size_is_reachable_listing(cfg, path@, listing, sat_add_spec(depth, 1));
            }
        },
        _ => {},
    }
}

/// The same, for one directory's contents.
pub proof fn lemma_total_size_is_reachable_listing(cfg: Config, dp: Seq<char>, l: DirListing, depth: u64)
    ensures
        walk_listing_spec(cfg, l, dp, depth).0.total_size == reachable_size_listing(cfg, l, depth),
    decreases l,
{
    if cfg.depth_ok(depth) {
        match l {
            DirListing::Read(v) => {
                lemma_total_size_is_reachable_seq(cfg, dp, v@, depth);
            },
            DirListing::Unread => {},
        }
    }
}

/// The same, for a list of entries.
pub proof fn lemma_total_size_is_reachable_seq(cfg: Config, dp: Seq<char>, s: Seq<EntryData>, depth: u64)
    ensures
        walk_seq_spec(cfg, dp, s, depth).0.total_size == reachable_size_seq(cfg, s, depth),
    decreases s,
{
    if s.len() > 0 {
        lemma_total_size_is_reachable_seq(cfg, dp, s.drop_last(), depth);
        lemma_total_size_is_reachable_entry(cfg, dp, s.last(), depth);
    }
}

/// One depth limit admits at least as much as another: anything is
/// allowed under no limit, and a larger bound admits more.
pub open spec fn depth_le(a: Option<u64>, b: Option<u64>) -> bool {
    match (a, b) {
        (_, Option::None) => true,
        (Option::Some(x), Option::Some(y)) => x <= y,
        (Option::None, Option::Some(_)) => false,
    }
}

/// Fields that a change of depth limit leaves alone.
pub open spec fn same_but_limit(a: Config, b: Config) -> bool {
    a.recursive == b.recursive && a.quiet == b.quiet && a.human_unit == b.human_unit
        && a.only_extension == b.only_extension && a.ignore_extension == b.ignore_extension
}

/// Raising (or removing) the depth limit never decreases any counter:
/// the walk of one entry is monotone in the depth limit.
pub proof fn lemma_depth_monotone_entry(c1: Config, c2: Config, dp: Seq<char>, e: EntryData, depth: u64)
    requires
        same_but_limit(c1, c2),
        depth_le(c1.max_depth, c2.max_depth),
    ensures
        walk_entry_spec(c1, dp, e, depth).0.directory_count <= walk_entry_spec(c2, dp, e, depth).0.directory_count,
        walk_entry_spec(c1, dp, e, depth).0.file_count <= walk_entry_spec(c2, dp, e, depth).0.file_count,
        walk_entry_spec(c1, dp, e, depth).0.total_size <= walk_entry_spec(c2, dp, e, depth).0.total_size,
    decreases e,
{
    assert(c1.only_view() == c2.only_view());
    assert(c1.ignore_view() == c2.ignore_view());
    match e {
        EntryData::Dir { path, listing, .. } => {
            if c1.recursive {
                lemma_depth_monotone_listing(c1, c2, path@, listing, sat_add_spec(depth, 1));
                let s1 = walk_listing_spec(c1, listing, path@, sat_add_spec(depth, 1)).0;
                let s2 = walk_listing_spec(c2, listing, path@, sat_add_spec(depth, 1)).0;
                lemma_sat_add_monotone(1, s1.directory_count, 1, s2.directory_count);
                lemma_sat_add_monotone(0, s1.file_count, 0, s2.file_count);
                lemma_sat_add_monotone(0, s1.total_size, 0, s2.total_size);
            }
        },
        _ => {},
    }
}

/// The same monotonicity, for one directory's contents.
pub proof fn lemma_depth_monotone_listing(c1: Config, c2: Config, dp: Seq<char>, l: DirListing, depth: u64)
    requires
        same_but_limit(c1, c2),
        depth_le(c1.max_depth, c2.max_depth),
    ensures
        walk_listing_spec(c1, l, dp, depth).0.directory_count <= walk_listing_spec(c2, l, dp, depth).0.directory_count,
        walk_listing_spec(c1, l, dp, depth).0.file_count <= walk_listing_spec(c2, l, dp, depth).0.file_count,
        walk_listing_spec(c1, l, dp, depth).0.total_size <= walk_listing_spec(c2, l, dp, depth).0.total_size,
    decreases l,
{
    if !c1.depth_ok(depth) {
        assert(walk_listing_spec(c1, l, dp, depth).0 == empty_spec());
    } else {
        assert(c2.depth_ok(depth));
        match l {
            DirListing::Read(v) => {
                lemma_depth_monotone_seq(c1, c2, dp, v@, depth);
            },
            DirListing::Unread => {},
        }
    }
}

/// The same monotonicity, for a list of entries.
pub proof fn lemma_depth_monotone_seq(c1: Config, c2: Config, dp: Seq<char>, s: Seq<EntryData>, depth: u64)
    requires
        same_but_limit(c1, c2),
        depth_le(c1.max_depth, c2.max_depth),
    ensures
        walk_seq_spec(c1, dp, s, depth).0.directory_count <= walk_seq_spec(c2, dp, s, depth).0.directory_count,
        walk_seq_spec(c1, dp, s, depth).0.file_count <= walk_seq_spec(c2, dp, s, depth).0.file_count,
        walk_seq_spec(c1, dp, s, depth).0.total_size <= walk_seq_spec(c2, dp, s, depth).0.total_size,
    decreases s,
{
    if s.len() > 0 {
        lemma_depth_monotone_seq(c1, c2, dp, s.drop_last(), depth);
        lemma_depth_monotone_entry(c1, c2, dp, s.last(), depth);
        let p1 = walk_seq_spec(c1, dp, s.drop_last(), depth).0;
        let p2 = walk_seq_spec(c2, dp, s.drop_last(), depth).0;
        let e1 = walk_entry_spec(c1, dp, s.last(), depth).0;
        let e2 = walk_entry_spec(c2, dp, s.last(), depth).0;
        lemma_sat_add_monotone(p1.directory_count, e1.directory_count, p2.directory_count, e2.directory_count);
        lemma_sat_add_monotone(p1.file_count, e1.file_count, p2.file_count, e2.file_count);
        lemma_sat_add_monotone(p1.total_size, e1.total_size, p2.total_size, e2.total_size);
    }
}

/// Fields that the ignore-extension filter does not touch.
pub open spec fn same_but_ignore(a: Config, b: Config) -> bool {
    a.recursive == b.recursive && a.max_depth == b.max_depth && a.quiet == b.quiet
        && a.human_unit == b.human_unit && a.only_extension == b.only_extension
}

/// With an only-extension filter in force, the ignore-extension filter
/// has no effect on the walk of one entry: result and lines both.
pub proof fn lemma_ignore_irrelevant_entry(c1: Config, c2: Config, dp: Seq<char>, e: EntryData, depth: u64)
    requires
        same_but_ignore(c1, c2),
        c1.only_extension is Some,
    ensures
        walk_entry_spec(c1, dp, e, depth) == walk_entry_spec(c2, dp, e, depth),
    decreases e,
{
    assert(c1.only_view() == c2.only_view());
    let e1 = walk_entry_spec(c1, dp, e, depth);
    let e2 = walk_entry_spec(c2, dp, e, depth);
    match e {
        EntryData::File { name, .. } => {
            match c1.only_view() {
                Option::Some(os) => {
                    crate::filter::lemma_only_overrides_ignore(
                        os,
                        c1.ignore_view(),
                        c2.ignore_view(),
                        extension_spec(name@),
                    );
                },
                Option::None => {},
            }
            assert(e1.0 == e2.0);
            assert(e1.1 =~= e2.1);
        },
        EntryData::Dir { path, listing, .. } => {
            if c1.recursive {
                lemma_ignore_irrelevant_listing(c1, c2, path@, listing, sat_add_spec(depth, 1));
            }
            assert(e1.0 == e2.0);
            assert(e1.1 =~= e2.1);
        },
        EntryData::Unknown => {
            assert(e1.1 =~= e2.1);
        },
    }
    assert(e1.1 == e2.1);
}

/// The same, for one directory's contents.
pub proof fn lemma_ignore_irrelevant_listing(c1: Config, c2: Config, dp: Seq<char>, l: DirListing, depth: u64)
    requires
        same_but_ignore(c1, c2),
        c1.only_extension is Some,
    ensures
        walk_listing_spec(c1, l, dp, depth) == walk_listing_spec(c2, l, dp, depth),
    decreases l,
{
    if c1.depth_ok(depth) {
        match l {
            DirListing::Read(v) => {
                lemma_ignore_irrelevant_seq(c1, c2, dp, v@, depth);
            },
            DirListing::Unread => {},
        }
    }
}

/// The same, for a list of entries.
pub proof fn lemma_ignore_irrelevant_seq(c1: Config, c2: Config, dp: Seq<char>, s: Seq<EntryData>, depth: u64)
    requires
        same_but_ignore(c1, c2),
        c1.only_extension is Some,
    ensures
        walk_seq_spec(c1, dp, s, depth) == walk_seq_spec(c2, dp, s, depth),
    decreases s,
{
    if s.len() > 0 {
        lemma_ignore_irrelevant_seq(c1, c2, dp, s.drop_last(), depth);
        lemma_ignore_irrelevant_entry(c1, c2, dp, s.last(), depth);
        assert(walk_seq_spec(c1, dp, s, depth).1 =~= walk_seq_spec(c2, dp, s, depth).1);
    }
}

/// How many levels of listings sit below one entry.
pub open spec fn height_entry(e: EntryData) -> nat
    decreases e,
{
    match e {
        EntryData::Dir { listing, .. } => height_listing(listing),
        _ => 0,
    }
}

/// How many levels of listings a directory's contents hold, counting
/// the listing itself.
pub open spec fn height_listing(l: DirListing) -> nat
    decreases l,
{
    match l {
        DirListing::Unread => 1,
        DirListing::Read(v) => 1 + height_seq(v@),
    }
}

/// The deepest entry of a list.
pub open spec fn height_seq(s: Seq<EntryData>) -> nat
    decreases s,
{
    if s.len() == 0 {
        0
    } else if height_entry(s.last()) >= height_seq(s.drop_last()) {
        height_entry(s.last())
    } else {
        height_seq(s.drop_last())
    }
}

/// An absent depth limit is the same as any finite limit deep enough
/// for the tree at hand: the walk of one entry agrees, result and
/// lines both.
pub proof fn lemma_unlimited_entry(c1: Config, c2: Config, dp: Seq<char>, e: EntryData, depth: u64, m: u64)
    requires
        same_but_limit(c1, c2),
        c1.max_depth == Option::Some(m),
        c2.max_depth is None,
        depth as int + height_entry(e) <= m as int,
    ensures
        walk_entry_spec(c1, dp, e, depth) == walk_entry_spec(c2, dp, e, depth),
    decreases e,
{
    assert(c1.only_view() == c2.only_view());
    assert(c1.ignore_view() == c2.ignore_view());
    let e1 = walk_entry_spec(c1, dp, e, depth);
    let e2 = walk_entry_spec(c2, dp, e, depth);
    match e {
        EntryData::Dir { path, listing, .. } => {
            if c1.recursive {
                assert(height_listing(listing) >= 1);
                assert(depth < u64::MAX);
                assert(sat_add_spec(depth, 1) == depth + 1);
                lemma_unlimited_listing(c1, c2, path@, listing, (depth + 1) as u64, m);
            }
            assert(e1.0 == e2.0);
            assert(e1.1 =~= e2.1);
        },
        EntryData::File { .. } => {
            assert(e1.0 == e2.0);
            assert(e1.1 =~= e2.1);
        },
        EntryData::Unknown => {
            assert(e1.1 =~= e2.1);
        },
    }
    assert(e1.1 == e2.1);
}

/// The same, for one directory's contents.
pub proof fn lemma_unlimited_listing(c1: Config, c2: Config, dp: Seq<char>, l: DirListing, depth: u64, m: u64)
    requires
        same_but_limit(c1, c2),
        c1.max_depth == Option::Some(m),
        c2.max_depth is None,
        depth as int + height_listing(l) <= m as int + 1,
    ensures
        walk_listing_spec(c1, l, dp, depth) == walk_listing_spec(c2, l, dp, depth),
    decreases l,
{
    assert(height_listing(l) >= 1);
    assert(c1.depth_ok(depth));
    match l {
        DirListing::Read(v) => {
            lemma_unlimited_seq(c1, c2, dp, v@, depth, m);
        },
        DirListing::Unread => {},
    }
}

/// The same, for a list of entries.
pub proof fn lemma_unlimited_seq(c1: Config, c2: Config, dp: Seq<char>, s: Seq<EntryData>, depth: u64, m: u64)
    requires
        same_but_limit(c1, c2),
        c1.max_depth == Option::Some(m),
        c2.max_depth is None,
        depth as int + height_seq(s) <= m as int,
    ensures
        walk_seq_spec(c1, dp, s, depth) == walk_seq_spec(c2, dp, s, depth),
    decreases s,
{
    if s.len() > 0 {
        lemma_unlimited_seq(c1, c2, dp, s.drop_last(), depth, m);
        lemma_unlimited_entry(c1, c2, dp, s.last(), depth, m);
        assert(walk_seq_spec(c1, dp, s, depth).1 =~= walk_seq_spec(c2, dp, s, depth).1);
    }
}

} // verus!
