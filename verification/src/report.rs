//! The closing report of a run, as text.

use vstd::prelude::*;
use vstd::string::*;
use crate::stats::{CopyStats, Counts};

verus! {

/// The decimal digit for a number below ten.
pub open spec fn digit(d: nat) -> char {
    "0123456789"@[d as int]
}

/// A number in decimal, without leading zeros.
pub open spec fn decimal(n: nat) -> Seq<char>
    decreases n,
{
    if n < 10 {
        seq![digit(n)]
    } else {
        decimal(n / 10).push(digit(n % 10))
    }
}

/// The heading of a report, set off by blank lines.
pub open spec fn heading(dry_run: bool) -> Seq<char> {
    if dry_run {
        "\n\n------------DRY RUN COMPLETE------------\n\n"@
    } else {
        "\n\n--------------COPY COMPLETE--------------\n\n"@
    }
}

/// What became of the directories and files that a report counts, as the end
/// of its sentence.
pub open spec fn outcome(dry_run: bool) -> Seq<char> {
    if dry_run {
        " directory(ies) would have been copied.\n"@
    } else {
        " directory(ies) copied.\n"@
    }
}

/// The lines that close a report: how long the run took, and a rule.
pub open spec fn closing(duration: Seq<char>) -> Seq<char> {
    "Duration: "@ + duration + "\n\n-----------------------------------------\n\n"@
}

/// The report of a run over a tree: a heading, the counts of files and
/// directories with what became of them, the duration and a rule. A dry run
/// says so in the heading and reports what would have been copied.
pub open spec fn report_of(stats: Counts, duration: Seq<char>, dry_run: bool) -> Seq<char> {
    heading(dry_run) + "\n"@ + decimal(stats.files) + " file(s), "@ + decimal(stats.dirs) + outcome(
        dry_run,
    ) + closing(duration)
}

/// The report of a run that copied a single file: the same frame around the
/// one copy that was made or, in a dry run, would have been made.
pub open spec fn single_report_of(
    source: Seq<char>,
    target: Seq<char>,
    duration: Seq<char>,
    dry_run: bool,
) -> Seq<char> {
    heading(dry_run) + (if dry_run {
        "\nWould have copied: "@
    } else {
        "\nCopied: "@
    }) + source + " -> "@ + target + "\n"@ + closing(duration)
}

/// Writes `n` in decimal.
pub fn to_decimal(n: u64) -> (text: String)
    ensures
        text@ == decimal(n as nat),
    decreases n,
{
    proof {
        reveal_strlit("0123456789");
    }
    let d: usize = (n % 10) as usize;
    let glyph = "0123456789".substring_char(d, d + 1);
    assert(glyph@ =~= seq![digit(d as nat)]);
    if n < 10 {
        String::from_str(glyph)
    } else {
        let mut text = to_decimal(n / 10);
        text.append(glyph);
        assert(text@ =~= decimal((n / 10) as nat).push(digit(d as nat)));
        text
    }
}

/// The heading and, behind it, the lines that are the same in every report.
fn open_report(dry_run: bool) -> (text: String)
    ensures
        text@ == heading(dry_run),
{
    if dry_run {
        String::from_str("\n\n------------DRY RUN COMPLETE------------\n\n")
    } else {
        String::from_str("\n\n--------------COPY COMPLETE--------------\n\n")
    }
}

/// Appends the duration and the closing rule.
fn close_report(text: &mut String, duration: &str)
    ensures
        final(text)@ == old(text)@ + closing(duration@),
{
    text.append("Duration: ");
    text.append(duration);
    text.append("\n\n-----------------------------------------\n\n");
    assert(final(text)@ =~= old(text)@ + closing(duration@));
}

/// Renders the report of a run over a tree.
///
/// `duration` is the time the run took, already as text.
pub fn display_complete(stats: CopyStats, duration: &str, dry_run: bool) -> (text: String)
    ensures
        text@ == report_of(stats@, duration@, dry_run),
{
    let mut text = open_report(dry_run);
    text.append("\n");
    text.append(to_decimal(stats.files).as_str());
    text.append(" file(s), ");
    text.append(to_decimal(stats.dirs).as_str());
    if dry_run {
        text.append(" directory(ies) would have been copied.\n");
    } else {
        text.append(" directory(ies) copied.\n");
    }
    close_report(&mut text, duration);
    text
}

/// Renders the report of a run that copied the single file `source` to
/// `target`.
pub fn display_single(source: &str, target: &str, duration: &str, dry_run: bool) -> (text: String)
    ensures
        text@ == single_report_of(source@, target@, duration@, dry_run),
{
    let mut text = open_report(dry_run);
    if dry_run {
        text.append("\nWould have copied: ");
    } else {
        text.append("\nCopied: ");
    }
    text.append(source);
    text.append(" -> ");
    text.append(target);
    text.append("\n");
    close_report(&mut text, duration);
    text
}

} // verus!
