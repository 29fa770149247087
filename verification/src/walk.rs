//! The traversal core: a depth-bounded walk over the captured shape of
//! a directory tree that classifies entries, applies the filter policy,
//! accumulates counters, merges subtree results, and collects the
//! display and diagnostic lines.

use vstd::prelude::*;
use crate::agg::{
    empty_spec, merge_spec, sat_add, sat_add_spec, BiggestFile, TraversalResult,
};
use crate::config::Config;
use crate::filter::{extension_spec, keep_file, keep_file_spec};
use crate::render::{entry_line, entry_line_spec};

verus! {

/// What listing a directory's contents produced: the entries, or no
/// entries because the listing failed or was never attempted (the
/// depth limit or a non-recursive traversal forbade descending).
pub enum DirListing {
    Unread,
    Read(Vec<EntryData>),
}

/// One entry found inside a listed directory.
pub enum EntryData {
    /// A file: its name, its full path, and its size in bytes, absent
    /// where the size could not be read.
    File { name: String, path: String, size: Option<u64> },
    /// A subdirectory: its name, its full path, and its contents.
    Dir { name: String, path: String, listing: DirListing },
    /// An entry whose type could not be determined.
    Unknown,
}

/// The two diagnostic lines for a directory that could not be listed.
pub open spec fn dir_unreadable_lines(path: Seq<char>) -> Seq<Seq<char>> {
    seq![path, "Could not read directory content, is it accessible? Skipping..."@]
}

/// The two diagnostic lines for an entry whose type is unknown, naming
/// the directory that holds it.
pub open spec fn entry_unresolvable_lines(dir_path: Seq<char>) -> Seq<Seq<char>> {
    seq![dir_path, "Could not read entry, is it accessible? Skipping..."@]
}

/// The two diagnostic lines for a file whose size could not be read.
pub open spec fn metadata_unavailable_lines(path: Seq<char>) -> Seq<Seq<char>> {
    seq![path, "Could not get entry data, is it accessible? Skipping..."@]
}

/// The contribution of one counted file.
pub open spec fn file_result(path: String, size: u64) -> TraversalResult {
    TraversalResult {
        directory_count: 0,
        file_count: 1,
        total_size: size,
        biggest_file: Option::Some(BiggestFile { path, size }),
    }
}

/// The contribution of one counted directory, before its contents.
pub open spec fn dir_result() -> TraversalResult {
    TraversalResult { directory_count: 1, file_count: 0, total_size: 0, biggest_file: Option::None }
}

/// What the traversal makes of one entry sitting at `depth` inside the
/// directory `dir_path`: its contribution to the aggregate, and the
/// lines it prints. A file that fails the filter contributes nothing; a
/// file without a readable size is skipped with a diagnostic; a counted
/// entry is displayed unless the traversal is quiet; a subdirectory's
/// contents are merged in when the traversal is recursive.
pub open spec fn walk_entry_spec(cfg: Config, dir_path: Seq<char>, e: EntryData, depth: u64) -> (
    TraversalResult,
    Seq<Seq<char>>,
)
    decreases e,
{
    match e {
        EntryData::File { name, path, size } => {
            if !keep_file_spec(cfg.only_view(), cfg.ignore_view(), extension_spec(name@)) {
                (empty_spec(), Seq::empty())
            } else {
                match size {
                    Option::None => (empty_spec(), metadata_unavailable_lines(path@)),
                    Option::Some(s) => (
                        file_result(path, s),
                        if cfg.quiet {
                            Seq::empty()
                        } else {
                            seq![entry_line_spec(depth, name@, true, s, cfg.human_unit)]
                        },
                    ),
                }
            }
        },
        EntryData::Dir { name, path, listing } => {
            let line: Seq<Seq<char>> = if cfg.quiet {
                Seq::empty()
            } else {
                seq![entry_line_spec(depth, name@, false, 0, cfg.human_unit)]
            };
            if cfg.recursive {
                let sub = walk_listing_spec(cfg, listing, path@, sat_add_spec(depth, 1));
                (merge_spec(dir_result(), sub.0), line + sub.1)
            } else {
                (dir_result(), line)
            }
        },
        EntryData::Unknown => (empty_spec(), entry_unresolvable_lines(dir_path)),
    }
}

/// The traversal of the entries of one directory, first to last: each
/// entry's contribution is merged into the running total, so an entry
/// that fails does not keep its siblings from being counted.
pub open spec fn walk_seq_spec(cfg: Config, dir_path: Seq<char>, s: Seq<EntryData>, depth: u64) -> (
    TraversalResult,
    Seq<Seq<char>>,
)
    decreases s,
{
    if s.len() == 0 {
        (empty_spec(), Seq::empty())
    } else {
        let prev = walk_seq_spec(cfg, dir_path, s.drop_last(), depth);
        let e = walk_entry_spec(cfg, dir_path, s.last(), depth);
        (merge_spec(prev.0, e.0), prev.1 + e.1)
    }
}

/// The traversal of one directory's contents at `depth`. Past the depth
/// limit nothing is listed and nothing contributes; a directory whose
/// listing failed contributes nothing but a diagnostic.
pub open spec fn walk_listing_spec(cfg: Config, l: DirListing, dir_path: Seq<char>, depth: u64) -> (
    TraversalResult,
    Seq<Seq<char>>,
)
    decreases l,
{
    if !cfg.depth_ok(depth) {
        (empty_spec(), Seq::empty())
    } else {
        match l {
            DirListing::Unread => (empty_spec(), dir_unreadable_lines(dir_path)),
            DirListing::Read(v) => walk_seq_spec(cfg, dir_path, v@, depth),
        }
    }
}

/// The whole traversal: the root's contents walked at depth zero.
pub open spec fn traverse_spec(cfg: Config, root: DirListing) -> (
    TraversalResult,
    Seq<Seq<char>>,
) {
    walk_listing_spec(cfg, root, cfg.root@, 0)
}

/// Append one line.
fn push_line(out: &mut Vec<String>, s: String)
    ensures
        final(out).deep_view() == old(out).deep_view().push(s@),
{
    let ghost base = out.deep_view();
    let ghost sv = s@;
    out.push(s);
    proof {
        assert(out.deep_view() =~= base.push(sv));
    }
}

/// Append a two-line diagnostic: the path concerned, then the message.
fn push_diag(out: &mut Vec<String>, path: &String, msg: &'static str)
    ensures
        final(out).deep_view() == old(out).deep_view() + seq![path@, msg@],
{
    let ghost base = out.deep_view();
    out.push(path.clone());
    out.push(msg.to_owned());
    proof {
        assert(out.deep_view() =~= base + seq![path@, msg@]);
    }
}

/// Walk one entry, merging nothing: returns its contribution and
/// appends its lines.
pub fn walk_entry(cfg: &Config, e: &EntryData, dir_path: &String, depth: u64, out: &mut Vec<
    String,
>) -> (r: TraversalResult)
    ensures
        r == walk_entry_spec(*cfg, dir_path@, *e, depth).0,
        final(out).deep_view() == old(out).deep_view() + walk_entry_spec(
            *cfg,
            dir_path@,
            *e,
            depth,
        ).1,
    decreases e,
{
    let ghost base = out.deep_view();
    let r = match e {
        EntryData::File { name, path, size } => {
            if !keep_file(cfg, name.as_str()) {
                TraversalResult::empty()
            } else {
                match size {
                    Option::None => {
                        push_diag(
                            out,
                            path,
                            "Could not get entry data, is it accessible? Skipping...",
                        );
                        TraversalResult::empty()
                    },
                    Option::Some(s) => {
                        if !cfg.quiet {
                            push_line(
                                out,
                                entry_line(depth, name.as_str(), true, *s, cfg.human_unit),
                            );
                        }
                        TraversalResult {
                            directory_count: 0,
                            file_count: 1,
                            total_size: *s,
                            biggest_file: Option::Some(
                                BiggestFile { path: path.clone(), size: *s },
                            ),
                        }
                    },
                }
            }
        },
        EntryData::Dir { name, path, listing } => {
            if !cfg.quiet {
                push_line(out, entry_line(depth, name.as_str(), false, 0, cfg.human_unit));
            }
            let base_result = TraversalResult {
                directory_count: 1,
                file_count: 0,
                total_size: 0,
                biggest_file: Option::None,
            };
            if cfg.recursive {
                let sub = walk_listing(cfg, listing, path, sat_add(depth, 1), out);
                base_result.merge(sub)
            } else {
                base_result
            }
        },
        EntryData::Unknown => {
            push_diag(out, dir_path, "Could not read entry, is it accessible? Skipping...");
            TraversalResult::empty()
        },
    };
    proof {
        assert(out.deep_view() =~= base + walk_entry_spec(*cfg, dir_path@, *e, depth).1);
    }
    r
}

/// Walk the entries of a listed directory in order, merging each
/// contribution into the running total.
pub fn walk_entries(cfg: &Config, v: &Vec<EntryData>, dir_path: &String, depth: u64, out: &mut Vec<
    String,
>) -> (r: TraversalResult)
    ensures
        r == walk_seq_spec(*cfg, dir_path@, v@, depth).0,
        final(out).deep_view() == old(out).deep_view() + walk_seq_spec(
            *cfg,
            dir_path@,
            v@,
            depth,
        ).1,
    decreases v,
{
    let ghost base = out.deep_view();
    let mut acc = TraversalResult::empty();
    let mut i: usize = 0;
    while i < v.len()
        invariant
            i <= v.len(),
            acc == walk_seq_spec(*cfg, dir_path@, v@.subrange(0, i as int), depth).0,
            out.deep_view() == base + walk_seq_spec(*cfg, dir_path@, v@.subrange(0, i as int), depth).1,
        decreases v.len() - i,
    {
        let e = walk_entry(cfg, &v[i], dir_path, depth, out);
        acc = acc.merge(e);
        proof {
            assert(v@.subrange(0, (i + 1) as int).drop_last() =~= v@.subrange(0, i as int));
            assert(v@.subrange(0, (i + 1) as int).last() == v@[i as int]);
            assert(out.deep_view() =~= base + walk_seq_spec(
                *cfg,
                dir_path@,
                v@.subrange(0, (i + 1) as int),
                depth,
            ).1);
        }
        i = i + 1;
    }
    proof {
        assert(v@.subrange(0, v.len() as int) =~= v@);
    }
    acc
}

/// Walk one directory's contents, observing the depth limit and
/// reporting a directory whose listing failed.
pub fn walk_listing(cfg: &Config, l: &DirListing, dir_path: &String, depth: u64, out: &mut Vec<
    String,
>) -> (r: TraversalResult)
    ensures
        r == walk_listing_spec(*cfg, *l, dir_path@, depth).0,
        final(out).deep_view() == old(out).deep_view() + walk_listing_spec(
            *cfg,
            *l,
            dir_path@,
            depth,
        ).1,
    decreases l,
{
    let ghost base = out.deep_view();
    let proceed = match &cfg.max_depth {
        Option::None => true,
        Option::Some(m) => depth <= *m,
    };
    if !proceed {
        proof {
            assert(out.deep_view() =~= base + walk_listing_spec(*cfg, *l, dir_path@, depth).1);
        }
        return TraversalResult::empty();
    }
    match l {
        DirListing::Unread => {
            push_diag(out, dir_path, "Could not read directory content, is it accessible? Skipping...");
            TraversalResult::empty()
        },
        DirListing::Read(v) => walk_entries(cfg, v, dir_path, depth, out),
    }
}

/// Traverse a captured directory tree: returns the aggregate result and
/// the display and diagnostic lines, in the order they are printed.
pub fn traverse_entry(cfg: &Config, root: &DirListing) -> (r: (TraversalResult, Vec<String>))
    ensures
        r.0 == traverse_spec(*cfg, *root).0,
        r.1.deep_view() == traverse_spec(*cfg, *root).1,
{
    let mut out: Vec<String> = Vec::new();
    let tr = walk_listing(cfg, root, &cfg.root, 0, &mut out);
    proof {
        assert(out.deep_view() =~= traverse_spec(*cfg, *root).1);
    }
    (tr, out)
}

/// Whether a directory whose contents sit at `depth` should be listed
/// at all: only a recursive traversal descends, and only within the
/// depth limit. The root's own contents, at depth zero, are always
/// listed.
pub fn should_list(cfg: &Config, depth: u64) -> (r: bool)
    ensures
        r == (cfg.recursive && cfg.depth_ok(depth)),
{
    cfg.recursive && match &cfg.max_depth {
        Option::None => true,
        Option::Some(m) => depth <= *m,
    }
}

} // verus!
