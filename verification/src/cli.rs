//! Command-line invocations, as plain data. Argument parsing itself
//! lives with the embedding application; the library receives the
//! parsed values.

use vstd::prelude::*;
use vstd::string::*;
use crate::format::{format_size, spec_format_size, clamp_u64};
use crate::strings::{spec_dec, u64_to_string};

verus! {

/// One parsed command-line invocation.
pub struct Cli {
    pub command: Command,
}

/// The two subcommands: a dry-run scan, and a clean that deletes only
/// when explicitly confirmed.
pub enum Command {
    /// Scan for junk files; never deletes.
    Scan { category: Option<String>, min_size: String, path: Option<String> },
    /// Clean junk files; without `confirm`, behaves like a scan.
    Clean { confirm: bool, category: Option<String>, min_size: String, path: Option<String> },
}

/// One row of the end-of-run summary.
pub struct SummaryRow {
    pub name: String,
    pub total_bytes: u64,
    pub report_only: bool,
}

/// The grand total of a summary: report-only rows are informational
/// and never counted as reclaimable.
pub open spec fn spec_grand_total(rows: Seq<SummaryRow>) -> int
    decreases rows.len(),
{
    if rows.len() == 0 {
        0
    } else {
        (if rows[0].report_only {
            0
        } else {
            rows[0].total_bytes as int
        }) + spec_grand_total(rows.drop_first())
    }
}

proof fn lemma_grand_total_take_succ(rows: Seq<SummaryRow>, i: int)
    requires
        0 <= i < rows.len(),
    ensures
        spec_grand_total(rows.take(i + 1)) == spec_grand_total(rows.take(i)) + (if rows[i].report_only {
            0int
        } else {
            rows[i].total_bytes as int
        }),
        spec_grand_total(rows.take(i)) >= 0,
    decreases i,
{
    if i == 0 {
        assert(rows.take(1).drop_first() =~= rows.take(0));
        assert(rows.take(0) =~= Seq::<SummaryRow>::empty());
    } else {
        lemma_grand_total_take_succ(rows.drop_first(), i - 1);
        assert(rows.take(i + 1).drop_first() =~= rows.drop_first().take(i));
        assert(rows.take(i).drop_first() =~= rows.drop_first().take(i - 1));
    }
}

/// Total reclaimable bytes across the summary, saturating at u64.
pub fn grand_total(rows: &Vec<SummaryRow>) -> (r: u64)
    ensures
        r == clamp_u64(spec_grand_total(rows@)),
{
    let n = rows.len();
    let mut acc: u64 = 0;
    let mut i: usize = 0;
    proof {
        assert(rows@.take(0) =~= Seq::<SummaryRow>::empty());
    }
    while i < n
        invariant
            0 <= i <= n,
            n == rows@.len(),
            acc == clamp_u64(spec_grand_total(rows@.take(i as int))),
            spec_grand_total(rows@.take(i as int)) >= 0,
        decreases n - i,
    {
        proof {
            lemma_grand_total_take_succ(rows@, i as int);
        }
        if !rows[i].report_only {
            let add = rows[i].total_bytes;
            if acc <= u64::MAX - add {
                acc = acc + add;
            } else {
                acc = u64::MAX;
            }
        }
        i = i + 1;
    }
    proof {
        assert(rows@.take(n as int) =~= rows@);
    }
    acc
}

/// The report lines joined, one per line.
pub open spec fn spec_joined_lines(lines: Seq<String>) -> Seq<char>
    decreases lines.len(),
{
    if lines.len() == 0 {
        Seq::empty()
    } else {
        lines[0]@ + "\n"@ + spec_joined_lines(lines.drop_first())
    }
}

proof fn lemma_joined_take_succ(lines: Seq<String>, i: int)
    requires
        0 <= i < lines.len(),
    ensures
        spec_joined_lines(lines.take(i + 1)) =~= spec_joined_lines(lines.take(i)) + lines[i]@
            + "\n"@,
    decreases i,
{
    if i == 0 {
        assert(lines.take(1).drop_first() =~= lines.take(0));
        assert(lines.take(0) =~= Seq::<String>::empty());
        assert(lines.take(1)[0] == lines[0]);
    } else {
        lemma_joined_take_succ(lines.drop_first(), i - 1);
        assert(lines.take(i + 1).drop_first() =~= lines.drop_first().take(i));
        assert(lines.take(i).drop_first() =~= lines.drop_first().take(i - 1));
        assert(lines.take(i + 1)[0] == lines[0]);
        assert(lines.take(i)[0] == lines[0]);
    }
}

/// The full text of the exported cleaning report.
pub open spec fn spec_report_text(lines: Seq<String>, total_freed: u64) -> Seq<char> {
    "=== TidyMac Cleaning Report ===\n\nTotal freed: "@ + spec_format_size(total_freed)
        + "\nFiles cleaned: "@ + spec_dec(lines.len() as int) + "\n\n--- Details ---\n\n"@
        + spec_joined_lines(lines)
}

/// Build the plain-text cleaning report: the total freed, the number
/// of items, and one detail line per cleaned item.
pub fn build_report(lines: &Vec<String>, total_freed: u64) -> (r: String)
    ensures
        r@ == spec_report_text(lines@, total_freed),
{
    let mut r = String::from_str("=== TidyMac Cleaning Report ===\n\nTotal freed: ");
    let size_text = format_size(total_freed);
    r = r.concat(size_text.as_str());
    r = r.concat("\nFiles cleaned: ");
    let count_text = u64_to_string(lines.len() as u64);
    r = r.concat(count_text.as_str());
    r = r.concat("\n\n--- Details ---\n\n");
    let ghost header = r@;
    let n = lines.len();
    let mut i: usize = 0;
    proof {
        assert(spec_joined_lines(lines@.take(0)) =~= Seq::<char>::empty());
        assert(r@ =~= header + spec_joined_lines(lines@.take(0)));
    }
    while i < n
        invariant
            0 <= i <= n,
            n == lines@.len(),
            r@ == header + spec_joined_lines(lines@.take(i as int)),
        decreases n - i,
    {
        proof {
            lemma_joined_take_succ(lines@, i as int);
        }
        r = r.concat(lines[i].as_str());
        r = r.concat("\n");
        proof {
            assert(r@ =~= header + spec_joined_lines(lines@.take(i + 1)));
        }
        i = i + 1;
    }
    proof {
        assert(lines@.take(n as int) =~= lines@);
        assert(header + spec_joined_lines(lines@) =~= spec_report_text(lines@, total_freed));
    }
    r
}

/// The well-known file name of an exported report.
pub fn report_file_name(timestamp: u64) -> (r: String)
    ensures
        r@ == "TidyMac_Report_"@ + spec_dec(timestamp as int) + ".txt"@,
{
    let r = String::from_str("TidyMac_Report_").concat(u64_to_string(timestamp).as_str()).concat(
        ".txt",
    );
    proof {
        assert(r@ =~= "TidyMac_Report_"@ + spec_dec(timestamp as int) + ".txt"@);
    }
    r
}

} // verus!
