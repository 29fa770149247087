use dirstat::config::Config;
use dirstat::filter::extension_of;
use dirstat::walk::{should_list, traverse_entry, DirListing, EntryData};
use dirstat::agg::{BiggestFile, TraversalResult};

fn file(name: &str, size: u64) -> EntryData {
    EntryData::File {
        name: name.to_owned(),
        path: format!("root/{}", name),
        size: Some(size),
    }
}

/// The sample tree: `a.txt` (100 bytes), `b.log` (50 bytes), and
/// `sub/` holding `c.txt` (200 bytes).
fn sample_tree() -> DirListing {
    DirListing::Read(vec![
        file("a.txt", 100),
        file("b.log", 50),
        EntryData::Dir {
            name: "sub".to_owned(),
            path: "root/sub".to_owned(),
            listing: DirListing::Read(vec![EntryData::File {
                name: "c.txt".to_owned(),
                path: "root/sub/c.txt".to_owned(),
                size: Some(200),
            }]),
        },
    ])
}

fn config(
    recursive: bool,
    max_depth: Option<u64>,
    ignore: Option<Vec<String>>,
    only: Option<Vec<String>>,
) -> Config {
    Config::new("root".to_owned(), recursive, max_depth, true, ignore, only, false)
}

#[test]
fn extension_extraction() {
    assert_eq!(extension_of("a.txt"), Some("txt".to_owned()));
    assert_eq!(extension_of("archive.tar.gz"), Some("gz".to_owned()));
    assert_eq!(extension_of("file"), None);
    assert_eq!(extension_of(".gitignore"), None);
    assert_eq!(extension_of("name."), Some("".to_owned()));
}

#[test]
fn sample_tree_non_recursive() {
    let cfg = config(false, None, None, None);
    let (r, _) = traverse_entry(&cfg, &sample_tree());
    assert_eq!(r.directory_count, 1);
    assert_eq!(r.file_count, 2);
    assert_eq!(r.total_size, 150);
}

#[test]
fn sample_tree_recursive() {
    let cfg = config(true, None, None, None);
    let (r, _) = traverse_entry(&cfg, &sample_tree());
    assert_eq!(r.directory_count, 1);
    assert_eq!(r.file_count, 3);
    assert_eq!(r.total_size, 350);
    let biggest = r.biggest_file.expect("a biggest file was found");
    assert_eq!(biggest.path, "root/sub/c.txt");
    assert_eq!(biggest.size, 200);
}

#[test]
fn only_extension_filter_recursive() {
    let cfg = config(true, None, None, Some(vec!["txt".to_owned()]));
    let (r, _) = traverse_entry(&cfg, &sample_tree());
    assert_eq!(r.file_count, 2);
    assert_eq!(r.total_size, 300);
}

#[test]
fn only_extension_ignores_ignore_list() {
    let only = Some(vec!["txt".to_owned()]);
    let without = config(true, None, None, only.clone());
    let with = config(true, None, Some(vec!["txt".to_owned(), "log".to_owned()]), only);
    let (a, _) = traverse_entry(&without, &sample_tree());
    let (b, _) = traverse_entry(&with, &sample_tree());
    assert_eq!(a.file_count, b.file_count);
    assert_eq!(a.total_size, b.total_size);
    assert_eq!(a.directory_count, b.directory_count);
    assert_eq!(b.file_count, 2);
    assert_eq!(b.total_size, 300);
}

#[test]
fn ignore_extension_filter() {
    let cfg = config(true, None, Some(vec!["log".to_owned()]), None);
    let (r, _) = traverse_entry(&cfg, &sample_tree());
    assert_eq!(r.file_count, 2);
    assert_eq!(r.total_size, 300);
}

#[test]
fn ignore_keeps_files_without_extension() {
    let tree = DirListing::Read(vec![file("README", 30), file("notes.log", 20)]);
    let cfg = config(false, None, Some(vec!["log".to_owned()]), None);
    let (r, _) = traverse_entry(&cfg, &tree);
    assert_eq!(r.file_count, 1);
    assert_eq!(r.total_size, 30);
}

#[test]
fn only_extension_skips_files_without_extension() {
    let tree = DirListing::Read(vec![file("README", 30), file("a.txt", 20)]);
    let cfg = config(false, None, None, Some(vec!["txt".to_owned()]));
    let (r, _) = traverse_entry(&cfg, &tree);
    assert_eq!(r.file_count, 1);
    assert_eq!(r.total_size, 20);
}

#[test]
fn extension_matching_is_case_insensitive() {
    let tree = DirListing::Read(vec![file("a.TXT", 25)]);
    let cfg = config(false, None, None, Some(vec!["TxT".to_owned()]));
    let (r, _) = traverse_entry(&cfg, &tree);
    assert_eq!(r.file_count, 1);
    assert_eq!(r.total_size, 25);
}

#[test]
fn depth_zero_counts_only_immediate_children() {
    let cfg = config(true, Some(0), None, None);
    let (r, _) = traverse_entry(&cfg, &sample_tree());
    assert_eq!(r.directory_count, 1);
    assert_eq!(r.file_count, 2);
    assert_eq!(r.total_size, 150);
}

#[test]
fn depth_one_reaches_the_subdirectory() {
    let cfg = config(true, Some(1), None, None);
    let (r, _) = traverse_entry(&cfg, &sample_tree());
    assert_eq!(r.file_count, 3);
    assert_eq!(r.total_size, 350);
}

#[test]
fn biggest_file_ties_keep_the_first_seen() {
    let tree = DirListing::Read(vec![file("first.bin", 70), file("second.bin", 70)]);
    let cfg = config(false, None, None, None);
    let (r, _) = traverse_entry(&cfg, &tree);
    let biggest = r.biggest_file.expect("a biggest file was found");
    assert_eq!(biggest.path, "root/first.bin");
}

#[test]
fn unreadable_subdirectory_spares_siblings() {
    let tree = DirListing::Read(vec![
        EntryData::Dir {
            name: "bad".to_owned(),
            path: "root/bad".to_owned(),
            listing: DirListing::Unread,
        },
        file("a.txt", 10),
    ]);
    let cfg = Config::new("root".to_owned(), true, None, false, None, None, false);
    let (r, lines) = traverse_entry(&cfg, &tree);
    assert_eq!(r.directory_count, 1);
    assert_eq!(r.file_count, 1);
    assert_eq!(r.total_size, 10);
    assert_eq!(
        lines,
        vec![
            "bad ".to_owned(),
            "root/bad".to_owned(),
            "Could not read directory content, is it accessible? Skipping...".to_owned(),
            "a.txt | size: 10".to_owned(),
        ]
    );
}

#[test]
fn unreadable_root_counts_nothing() {
    let cfg = Config::new("root".to_owned(), false, None, false, None, None, false);
    let (r, lines) = traverse_entry(&cfg, &DirListing::Unread);
    assert_eq!(r.directory_count, 0);
    assert_eq!(r.file_count, 0);
    assert_eq!(r.total_size, 0);
    assert!(r.biggest_file.is_none());
    assert_eq!(
        lines,
        vec![
            "root".to_owned(),
            "Could not read directory content, is it accessible? Skipping...".to_owned(),
        ]
    );
}

#[test]
fn file_without_readable_size_is_skipped_with_diagnostic() {
    let tree = DirListing::Read(vec![
        EntryData::File { name: "ghost.txt".to_owned(), path: "root/ghost.txt".to_owned(), size: None },
        file("a.txt", 10),
    ]);
    let cfg = Config::new("root".to_owned(), false, None, false, None, None, false);
    let (r, lines) = traverse_entry(&cfg, &tree);
    assert_eq!(r.file_count, 1);
    assert_eq!(r.total_size, 10);
    assert_eq!(
        lines,
        vec![
            "root/ghost.txt".to_owned(),
            "Could not get entry data, is it accessible? Skipping...".to_owned(),
            "a.txt | size: 10".to_owned(),
        ]
    );
}

#[test]
fn unresolvable_entry_names_its_directory() {
    let tree = DirListing::Read(vec![EntryData::Unknown, file("a.txt", 10)]);
    let cfg = Config::new("root".to_owned(), false, None, false, None, None, false);
    let (r, lines) = traverse_entry(&cfg, &tree);
    assert_eq!(r.file_count, 1);
    assert_eq!(
        lines,
        vec![
            "root".to_owned(),
            "Could not read entry, is it accessible? Skipping...".to_owned(),
            "a.txt | size: 10".to_owned(),
        ]
    );
}

#[test]
fn quiet_suppresses_display_lines_but_not_counts() {
    let cfg = config(true, None, None, None);
    let (r, lines) = traverse_entry(&cfg, &sample_tree());
    assert_eq!(r.file_count, 3);
    assert!(lines.is_empty());
}

#[test]
fn display_lines_are_indented_in_encounter_order() {
    let cfg = Config::new("root".to_owned(), true, None, false, None, None, false);
    let (_, lines) = traverse_entry(&cfg, &sample_tree());
    assert_eq!(
        lines,
        vec![
            "a.txt | size: 100".to_owned(),
            "b.log | size: 50".to_owned(),
            "sub ".to_owned(),
            "---> c.txt | size: 200".to_owned(),
        ]
    );
}

#[test]
fn should_list_follows_recursion_and_depth() {
    let flat = config(false, None, None, None);
    assert!(!should_list(&flat, 1));
    let deep = config(true, Some(2), None, None);
    assert!(should_list(&deep, 2));
    assert!(!should_list(&deep, 3));
    let unlimited = config(true, None, None, None);
    assert!(should_list(&unlimited, 1000));
}

#[test]
fn merge_adds_counts_and_prefers_larger_file() {
    let a = TraversalResult {
        directory_count: 1,
        file_count: 2,
        total_size: 30,
        biggest_file: Some(BiggestFile { path: "x".to_owned(), size: 20 }),
    };
    let b = TraversalResult {
        directory_count: 3,
        file_count: 4,
        total_size: 70,
        biggest_file: Some(BiggestFile { path: "y".to_owned(), size: 60 }),
    };
    let m = a.merge(b);
    assert_eq!(m.directory_count, 4);
    assert_eq!(m.file_count, 6);
    assert_eq!(m.total_size, 100);
    assert_eq!(m.biggest_file.expect("present").path, "y");
}

#[test]
fn merge_saturates_instead_of_overflowing() {
    let a = TraversalResult {
        directory_count: 0,
        file_count: 0,
        total_size: u64::MAX - 5,
        biggest_file: None,
    };
    let b = TraversalResult { directory_count: 0, file_count: 0, total_size: 10, biggest_file: None };
    assert_eq!(a.merge(b).total_size, u64::MAX);
}

#[test]
fn merge_is_associative_on_concrete_values() {
    let r = |d: u64, f: u64, s: u64, big: Option<(&str, u64)>| TraversalResult {
        directory_count: d,
        file_count: f,
        total_size: s,
        biggest_file: big.map(|(p, sz)| BiggestFile { path: p.to_owned(), size: sz }),
    };
    let a = r(1, 2, 30, Some(("a", 25)));
    let b = r(0, 1, 40, Some(("b", 40)));
    let c = r(2, 0, 5, None);
    let left = r(1, 2, 30, Some(("a", 25)))
        .merge(r(0, 1, 40, Some(("b", 40))))
        .merge(r(2, 0, 5, None));
    let right = a.merge(b.merge(c));
    assert_eq!(left.directory_count, right.directory_count);
    assert_eq!(left.file_count, right.file_count);
    assert_eq!(left.total_size, right.total_size);
    let (lb, rb) = (left.biggest_file.unwrap(), right.biggest_file.unwrap());
    assert_eq!(lb.path, rb.path);
    assert_eq!(lb.size, rb.size);
    assert_eq!(lb.path, "b");
}

#[test]
fn large_depth_limit_acts_unlimited() {
    let limited = config(true, Some(999), None, None);
    let unlimited = config(true, None, None, None);
    let (a, _) = traverse_entry(&limited, &sample_tree());
    let (b, _) = traverse_entry(&unlimited, &sample_tree());
    assert_eq!(a.directory_count, b.directory_count);
    assert_eq!(a.file_count, b.file_count);
    assert_eq!(a.total_size, b.total_size);
}

#[test]
fn total_size_grows_with_the_depth_limit() {
    let sizes: Vec<u64> = [Some(0), Some(1), Some(2), None]
        .into_iter()
        .map(|limit| traverse_entry(&config(true, limit, None, None), &sample_tree()).0.total_size)
        .collect();
    assert_eq!(sizes, vec![150, 350, 350, 350]);
    assert!(sizes.windows(2).all(|w| w[0] <= w[1]));
}

#[test]
fn ignore_matching_is_case_insensitive() {
    let tree = DirListing::Read(vec![file("b.LOG", 50), file("a.txt", 10)]);
    let cfg = config(false, None, Some(vec!["LoG".to_owned()]), None);
    let (r, _) = traverse_entry(&cfg, &tree);
    assert_eq!(r.file_count, 1);
    assert_eq!(r.total_size, 10);
}
