use dirstat::render::{convert_size_to_human_unit, entry_line, summary_lines, u64_to_string};
use dirstat::agg::BiggestFile;

#[test]
fn human_unit_zero_bytes() {
    assert_eq!(convert_size_to_human_unit(0), "0.00 [B]");
}

#[test]
fn human_unit_one_kilobyte() {
    assert_eq!(convert_size_to_human_unit(1024), "1.00 [KB]");
}

#[test]
fn human_unit_one_and_a_half_kilobytes() {
    assert_eq!(convert_size_to_human_unit(1536), "1.50 [KB]");
}

#[test]
fn human_unit_one_megabyte() {
    assert_eq!(convert_size_to_human_unit(1024 * 1024), "1.00 [MB]");
}

#[test]
fn human_unit_below_threshold_stays_bytes() {
    assert_eq!(convert_size_to_human_unit(1023), "1023.00 [B]");
}

#[test]
fn human_unit_terabytes_and_above() {
    let tb: u64 = 1024 * 1024 * 1024 * 1024;
    assert_eq!(convert_size_to_human_unit(tb), "1.00 [TB]");
    assert_eq!(convert_size_to_human_unit(tb * 1024), "1024.00 [TB]");
}

#[test]
fn human_unit_rounds_ties_to_even() {
    assert_eq!(convert_size_to_human_unit(1152), "1.12 [KB]");
}

#[test]
fn human_unit_carries_into_next_whole() {
    assert_eq!(convert_size_to_human_unit(2047), "2.00 [KB]");
}

#[test]
fn decimal_rendering() {
    assert_eq!(u64_to_string(0), "0");
    assert_eq!(u64_to_string(7), "7");
    assert_eq!(u64_to_string(105), "105");
    assert_eq!(u64_to_string(18446744073709551615), "18446744073709551615");
}

#[test]
fn entry_line_for_file_raw_size() {
    assert_eq!(entry_line(2, "x.txt", true, 5, false), "---> ---> x.txt | size: 5");
}

#[test]
fn entry_line_for_file_human_size() {
    assert_eq!(entry_line(0, "x.txt", true, 1536, true), "x.txt | size: 1.50 [KB]");
}

#[test]
fn entry_line_for_directory() {
    assert_eq!(entry_line(1, "sub", false, 0, false), "---> sub ");
}

#[test]
fn summary_without_biggest_file() {
    let lines = summary_lines(2, 3, 450, false, &None);
    assert_eq!(lines.len(), 4);
    assert_eq!(lines[0], "------------------------------------------------");
    assert_eq!(lines[1], "Directory count: 2");
    assert_eq!(lines[2], "File count: 3");
    assert_eq!(lines[3], "Total size: 450");
}

#[test]
fn summary_with_biggest_file_human() {
    let biggest = Some(BiggestFile { path: "root/sub/c.bin".to_owned(), size: 1024 });
    let lines = summary_lines(1, 1, 1024, true, &biggest);
    assert_eq!(lines.len(), 5);
    assert_eq!(lines[3], "Total size: 1.00 [KB]");
    assert_eq!(lines[4], "Biggest file: root/sub/c.bin | 1.00 [KB]");
}
