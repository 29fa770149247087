//! Rendering of sizes and output lines: decimal numbers, human-readable
//! units scaled by powers of 1024, per-entry lines, and the summary.

use vstd::prelude::*;
use vstd::string::StringExecFns;
use vstd::arithmetic::div_mod::{lemma_div_denominator, lemma_multiply_divide_lt};
use crate::agg::BiggestFile;

verus! {

/// The character for one decimal digit.
pub open spec fn digit_char(d: nat) -> char {
    if d == 0 {
        '0'
    } else if d == 1 {
        '1'
    } else if d == 2 {
        '2'
    } else if d == 3 {
        '3'
    } else if d == 4 {
        '4'
    } else if d == 5 {
        '5'
    } else if d == 6 {
        '6'
    } else if d == 7 {
        '7'
    } else if d == 8 {
        '8'
    } else {
        '9'
    }
}

/// The decimal digits of `n`, most significant first.
pub open spec fn dec_spec(n: nat) -> Seq<char>
    decreases n,
{
    if n < 10 {
        seq![digit_char(n)]
    } else {
        dec_spec(n / 10).push(digit_char(n % 10))
    }
}

/// A one-character string for the digit `d`.
fn digit_str(d: u64) -> (r: &'static str)
    requires
        d < 10,
    ensures
        r@ == seq![digit_char(d as nat)],
{
    proof {
        reveal_strlit("0");
        reveal_strlit("1");
        reveal_strlit("2");
        reveal_strlit("3");
        reveal_strlit("4");
        reveal_strlit("5");
        reveal_strlit("6");
        reveal_strlit("7");
        reveal_strlit("8");
        reveal_strlit("9");
    }
    let r = if d == 0 {
        "0"
    } else if d == 1 {
        "1"
    } else if d == 2 {
        "2"
    } else if d == 3 {
        "3"
    } else if d == 4 {
        "4"
    } else if d == 5 {
        "5"
    } else if d == 6 {
        "6"
    } else if d == 7 {
        "7"
    } else if d == 8 {
        "8"
    } else {
        "9"
    };
    proof {
        assert(r@ =~= seq![digit_char(d as nat)]);
    }
    r
}

/// Render `n` in decimal.
pub fn u64_to_string(n: u64) -> (r: String)
    ensures
        r@ == dec_spec(n as nat),
    decreases n,
{
    if n < 10 {
        digit_str(n).to_owned()
    } else {
        let mut s = u64_to_string(n / 10);
        s.append(digit_str(n % 10));
        proof {
            assert(s@ =~= dec_spec(n as nat));
        }
        s
    }
}

/// `1024` raised to the `k`th power.
pub open spec fn pow1024(k: nat) -> nat
    decreases k,
{
    if k == 0 {
        1
    } else {
        1024 * pow1024((k - 1) as nat)
    }
}

/// Every power of 1024 is positive.
proof fn lemma_pow1024_pos(k: nat)
    ensures
        pow1024(k) >= 1,
        k >= 1 ==> pow1024(k) >= 1024,
    decreases k,
{
    if k >= 1 {
        lemma_pow1024_pos((k - 1) as nat);
        assert(pow1024(k) == 1024 * pow1024((k - 1) as nat));
        assert(pow1024(k) >= 1024) by (nonlinear_arith)
            requires
                pow1024(k) == 1024 * pow1024((k - 1) as nat),
                pow1024((k - 1) as nat) >= 1,
        ;
    }
}

/// How often `size` can be divided by 1024, starting from `k` steps
/// already taken, before the value drops under 1024 or the names of the
/// units run out after four steps.
pub open spec fn unit_index_from(size: nat, k: nat) -> nat
    decreases 4 - k,
{
    if size < 1024 || k >= 4 {
        k
    } else {
        unit_index_from(size / 1024, k + 1)
    }
}

/// The unit a size is reported in: the number of times it is divided
/// by 1024, at most four.
pub open spec fn unit_index(size: nat) -> nat {
    unit_index_from(size, 0)
}

/// The unit names, by the number of divisions performed.
pub open spec fn unit_name(k: nat) -> Seq<char> {
    if k == 0 {
        "B"@
    } else if k == 1 {
        "KB"@
    } else if k == 2 {
        "MB"@
    } else if k == 3 {
        "GB"@
    } else {
        "TB"@
    }
}

/// `rem / d` scaled to hundredths and rounded to the nearest integer,
/// ties going to the even value.
pub open spec fn centi_round(rem: nat, d: nat) -> nat {
    let q = (rem * 100) / d;
    let r2 = (rem * 100) % d;
    if 2 * r2 > d {
        q + 1
    } else if 2 * r2 == d && q % 2 == 1 {
        q + 1
    } else {
        q
    }
}

/// The integer part and the two-decimal fraction of `size` rescaled to
/// its unit.
pub open spec fn human_parts(size: nat) -> (nat, nat) {
    let d = pow1024(unit_index(size));
    let w = size / d;
    let c = centi_round(size % d, d);
    if c == 100 {
        ((w + 1) as nat, 0nat)
    } else {
        (w, c)
    }
}

/// Two decimal digits for a value under 100.
pub open spec fn two_digits(c: nat) -> Seq<char> {
    seq![digit_char(c / 10), digit_char(c % 10)]
}

/// A size in human-readable form: the rescaled value with two decimals,
/// then the unit name in brackets.
pub open spec fn human_spec(size: nat) -> Seq<char> {
    dec_spec(human_parts(size).0) + "."@ + two_digits(human_parts(size).1) + " ["@ + unit_name(
        unit_index(size),
    ) + "]"@
}

/// Render a byte count as a human-readable size: rescaled by powers of
/// 1024 into B/KB/MB/GB/TB (the last unit also holding anything larger)
/// with two decimal places.
pub fn convert_size_to_human_unit(size: u64) -> (r: String)
    ensures
        r@ == human_spec(size as nat),
{
    let mut v: u64 = size;
    let mut k: u64 = 0;
    let mut d: u64 = 1;
    while v >= 1024 && k < 4
        invariant
            k <= 4,
            1 <= d,
            d == pow1024(k as nat),
            d <= 0x10000000000,
            v == size as nat / d as nat,
            unit_index(size as nat) == unit_index_from(v as nat, k as nat),
        decreases 4 - k,
    {
        proof {
            reveal_with_fuel(pow1024, 5);
            assert(d <= 0x40000000);
            assert(pow1024((k + 1) as nat) == 1024 * pow1024(k as nat));
            lemma_div_denominator(size as int, d as int, 1024);
        }
        v = v / 1024;
        k = k + 1;
        d = d * 1024;
    }
    let whole: u64 = v;
    let rem: u64 = size % d;
    proof {
        assert(rem < d);
        assert(rem * 100 < 0x1000000000000) by (nonlinear_arith)
            requires
                rem < d,
                d <= 0x10000000000,
        ;
    }
    let scaled: u64 = rem * 100;
    let q: u64 = scaled / d;
    let r2: u64 = scaled % d;
    proof {
        assert(((rem * 100) as int) < (d as int) * 100) by (nonlinear_arith)
            requires
                rem < d,
                0 < d,
        ;
        lemma_multiply_divide_lt(scaled as int, d as int, 100);
        assert(q < 100);
    }
    let centi: u64 = if 2 * r2 > d {
        q + 1
    } else if 2 * r2 == d && q % 2 == 1 {
        q + 1
    } else {
        q
    };
    let (whole, centi): (u64, u64) = if centi == 100 {
        proof {
            if k == 0 {
                assert(d == 1);
                assert(centi_round(rem as nat, 1) == 0);
            } else {
                lemma_pow1024_pos(k as nat);
                assert(d >= 1024);
                assert((size as int) < (d as int) * (u64::MAX as int)) by (nonlinear_arith)
                    requires
                        d >= 1024,
                        size <= u64::MAX,
                ;
                lemma_multiply_divide_lt(size as int, d as int, u64::MAX as int);
                assert(whole < u64::MAX);
            }
        }
        (whole + 1, 0)
    } else {
        (whole, centi)
    };
    let mut s = u64_to_string(whole);
    s.append(".");
    s.append(digit_str(centi / 10));
    s.append(digit_str(centi % 10));
    s.append(" [");
    let unit = match k {
        0 => "B",
        1 => "KB",
        2 => "MB",
        3 => "GB",
        _ => "TB",
    };
    s.append(unit);
    s.append("]");
    proof {
        assert(s@ =~= human_spec(size as nat));
    }
    s
}

/// The indent marker, repeated once per depth level.
pub open spec fn indent_spec(depth: nat) -> Seq<char>
    decreases depth,
{
    if depth == 0 {
        Seq::empty()
    } else {
        indent_spec((depth - 1) as nat) + "---> "@
    }
}

/// A size rendered for display: human-readable if asked for, else the
/// raw decimal byte count.
pub open spec fn size_text(size: u64, human: bool) -> Seq<char> {
    if human {
        human_spec(size as nat)
    } else {
        dec_spec(size as nat)
    }
}

/// The display line for one entry: the indent, the entry's name, and
/// for a file its size.
pub open spec fn entry_line_spec(
    depth: u64,
    name: Seq<char>,
    is_file: bool,
    size: u64,
    human: bool,
) -> Seq<char> {
    indent_spec(depth as nat) + name + " "@ + (if is_file {
        "| size: "@ + size_text(size, human)
    } else {
        Seq::<char>::empty()
    })
}

/// Render the display line for one entry.
pub fn entry_line(depth: u64, name: &str, is_file: bool, size: u64, human: bool) -> (r: String)
    ensures
        r@ == entry_line_spec(depth, name@, is_file, size, human),
{
    let mut s = String::new();
    let mut i: u64 = 0;
    while i < depth
        invariant
            i <= depth,
            s@ == indent_spec(i as nat),
        decreases depth - i,
    {
        s.append("---> ");
        i = i + 1;
    }
    s.append(name);
    s.append(" ");
    if is_file {
        s.append("| size: ");
        let text = if human {
            convert_size_to_human_unit(size)
        } else {
            u64_to_string(size)
        };
        s.append(text.as_str());
    }
    proof {
        assert(s@ =~= entry_line_spec(depth, name@, is_file, size, human));
    }
    s
}

/// The lines of the final summary block: a separator, the two counts,
/// the total size, and, when one was found, the biggest file.
pub open spec fn summary_lines_spec(
    directory_count: u64,
    file_count: u64,
    total_size: u64,
    human: bool,
    biggest: Option<BiggestFile>,
) -> Seq<Seq<char>> {
    let head = seq![
        "------------------------------------------------"@,
        "Directory count: "@ + dec_spec(directory_count as nat),
        "File count: "@ + dec_spec(file_count as nat),
        "Total size: "@ + size_text(total_size, human),
    ];
    match biggest {
        Option::None => head,
        Option::Some(b) => head.push("Biggest file: "@ + b.path@ + " | "@ + size_text(b.size, human)),
    }
}

/// Render the summary block, one string per output line.
pub fn summary_lines(
    directory_count: u64,
    file_count: u64,
    total_size: u64,
    human: bool,
    biggest: &Option<BiggestFile>,
) -> (r: Vec<String>)
    ensures
        r.deep_view() == summary_lines_spec(
            directory_count,
            file_count,
            total_size,
            human,
            *biggest,
        ),
{
    let mut r: Vec<String> = Vec::new();
    r.push("------------------------------------------------".to_owned());
    let mut dirs = "Directory count: ".to_owned();
    dirs.append(u64_to_string(directory_count).as_str());
    r.push(dirs);
    let mut files = "File count: ".to_owned();
    files.append(u64_to_string(file_count).as_str());
    r.push(files);
    let mut size_line = "Total size: ".to_owned();
    let total_text = if human {
        convert_size_to_human_unit(total_size)
    } else {
        u64_to_string(total_size)
    };
    size_line.append(total_text.as_str());
    r.push(size_line);
    match biggest {
        Option::None => {},
        Option::Some(b) => {
            let mut line = "Biggest file: ".to_owned();
            line.append(b.path.as_str());
            line.append(" | ");
            let text = if human {
                convert_size_to_human_unit(b.size)
            } else {
                u64_to_string(b.size)
            };
            line.append(text.as_str());
            r.push(line);
        },
    }
    proof {
        assert(r.deep_view() =~= summary_lines_spec(
            directory_count,
            file_count,
            total_size,
            human,
            *biggest,
        ));
    }
    r
}

} // verus!
