//! The texts shown to the operator, as far as they carry figures.

use crate::text::texts;
use crate::usage::{spec_unused_count, DiskUsage, UsageKind};
use vstd::prelude::*;

verus! {

/// What the crate `bytesize` writes for a number of bytes.
pub uninterp spec fn byte_size_text(bytes: u64) -> Seq<char>;

/// Calls `bytesize::ByteSize::b` and writes the result with its `Display`
/// implementation. The contract claims that the text depends on the number
/// of bytes alone.
#[verifier::external_body]
pub fn format_bytes(bytes: u64) -> (text: String)
    ensures
        text@ == byte_size_text(bytes),
{
    bytesize::ByteSize::b(bytes).to_string()
}

/// The character that writes a digit below ten.
pub open spec fn digit_char(digit: nat) -> char {
    if digit == 0 {
        '0'
    } else if digit == 1 {
        '1'
    } else if digit == 2 {
        '2'
    } else if digit == 3 {
        '3'
    } else if digit == 4 {
        '4'
    } else if digit == 5 {
        '5'
    } else if digit == 6 {
        '6'
    } else if digit == 7 {
        '7'
    } else if digit == 8 {
        '8'
    } else {
        '9'
    }
}

/// A number written in decimal digits, without leading zeros.
pub open spec fn decimal_text(number: nat) -> Seq<char>
    decreases number,
{
    if number < 10 {
        seq![digit_char(number)]
    } else {
        decimal_text(number / 10).push(digit_char(number % 10))
    }
}

/// The text of one digit.
fn digit_text(digit: usize) -> (text: &'static str)
    requires
        digit < 10,
    ensures
        text@ == seq![digit_char(digit as nat)],
{
    proof {
        reveal_strlit("0");
        reveal_strlit("1");
        reveal_strlit("2");
        reveal_strlit("3");
        reveal_strlit("4");
        reveal_strlit("5");
        reveal_strlit("6");
        reveal_strlit("7");
        reveal_strlit("8");
        reveal_strlit("9");
    }
    let text = if digit == 0 {
        "0"
    } else if digit == 1 {
        "1"
    } else if digit == 2 {
        "2"
    } else if digit == 3 {
        "3"
    } else if digit == 4 {
        "4"
    } else if digit == 5 {
        "5"
    } else if digit == 6 {
        "6"
    } else if digit == 7 {
        "7"
    } else if digit == 8 {
        "8"
    } else {
        "9"
    };
    assert(text@ =~= seq![digit_char(digit as nat)]);
    text
}

/// Appends a number in decimal digits.
pub fn push_number(text: &mut String, number: usize)
    ensures
        final(text)@ == old(text)@ + decimal_text(number as nat),
    decreases number,
{
    if number >= 10 {
        push_number(text, number / 10);
    }
    text.append(digit_text(number % 10));
    assert(text@ =~= old(text)@ + decimal_text(number as nat));
}

/// A count between two pieces of text.
pub open spec fn counted_text(before: Seq<char>, count: nat, after: Seq<char>) -> Seq<char> {
    before + decimal_text(count) + after
}

/// A size between two pieces of text.
pub open spec fn sized_text(before: Seq<char>, bytes: u64, after: Seq<char>) -> Seq<char> {
    before + byte_size_text(bytes) + after
}

/// A count between two pieces of text.
pub fn counted(before: &str, count: usize, after: &str) -> (text: String)
    ensures
        text@ == counted_text(before@, count as nat, after@),
{
    let mut text = String::from_str(before);
    push_number(&mut text, count);
    text.append(after);
    text
}

/// A size between two pieces of text.
pub fn sized(before: &str, bytes: u64, after: &str) -> (text: String)
    ensures
        text@ == sized_text(before@, bytes, after@),
{
    let mut text = String::from_str(before);
    let size = format_bytes(bytes);
    text.append(size.as_str());
    text.append(after);
    text
}

/// One row of the usage table.
#[derive(Debug)]
pub struct UsageRow {
    pub category: String,
    pub total: String,
    pub reclaimable: String,
}

/// The name a category goes by in the usage table.
pub open spec fn category_title(kind: UsageKind) -> Seq<char> {
    match kind {
        UsageKind::Images => "Images"@,
        UsageKind::Containers => "Containers"@,
        UsageKind::Volumes => "Volumes"@,
        UsageKind::BuildCache => "Build Cache"@,
    }
}

/// What the table says of a category's reclaimable space: the size, and
/// for all but the build cache the number of items not in use.
pub open spec fn reclaimable_cell(usage: DiskUsage, kind: UsageKind) -> Seq<char> {
    let figures = usage.spec_category(kind);
    let unused = spec_unused_count(
        figures.total_count as int,
        figures.active_count as int,
    ) as nat;
    match kind {
        UsageKind::Images => sized_text(Seq::empty(), figures.reclaimable_size, " ("@)
            + counted_text(Seq::empty(), unused, " unused)"@),
        UsageKind::Containers => sized_text(Seq::empty(), figures.reclaimable_size, " ("@)
            + counted_text(Seq::empty(), unused, " stopped)"@),
        UsageKind::Volumes => sized_text(Seq::empty(), figures.reclaimable_size, " ("@)
            + counted_text(Seq::empty(), unused, " unused)"@),
        UsageKind::BuildCache => byte_size_text(figures.reclaimable_size),
    }
}

/// Whether `row` is the table's row for the category `kind`.
pub open spec fn is_usage_row(row: UsageRow, usage: DiskUsage, kind: UsageKind) -> bool {
    &&& row.category@ == category_title(kind)
    &&& row.total@ == byte_size_text(usage.spec_category(kind).total_size)
    &&& row.reclaimable@ == reclaimable_cell(usage, kind)
}

/// The table's row for one category.
pub fn usage_row(usage: &DiskUsage, kind: UsageKind) -> (row: UsageRow)
    ensures
        is_usage_row(row, *usage, kind),
{
    let figures = usage.category(kind);
    let unused = figures.unused_count();
    let (title, note) = match kind {
        UsageKind::Images => ("Images", " unused)"),
        UsageKind::Containers => ("Containers", " stopped)"),
        UsageKind::Volumes => ("Volumes", " unused)"),
        UsageKind::BuildCache => ("Build Cache", ""),
    };
    let reclaimable = match kind {
        UsageKind::BuildCache => format_bytes(figures.reclaimable_size),
        _ => {
            let mut cell = sized("", figures.reclaimable_size, " (");
            let count = counted("", unused, note);
            cell.append(count.as_str());
            proof {
                reveal_strlit("");
                assert(""@ =~= Seq::<char>::empty());
            }
            cell
        },
    };
    UsageRow {
        category: String::from_str(title),
        total: format_bytes(figures.total_size),
        reclaimable,
    }
}

/// The usage table: images, containers, volumes and build cache, in that
/// order.
pub fn usage_rows(usage: &DiskUsage) -> (rows: Vec<UsageRow>)
    ensures
        rows.len() == 4,
        is_usage_row(rows[0], *usage, UsageKind::Images),
        is_usage_row(rows[1], *usage, UsageKind::Containers),
        is_usage_row(rows[2], *usage, UsageKind::Volumes),
        is_usage_row(rows[3], *usage, UsageKind::BuildCache),
{
    let mut rows: Vec<UsageRow> = Vec::new();
    rows.push(usage_row(usage, UsageKind::Images));
    rows.push(usage_row(usage, UsageKind::Containers));
    rows.push(usage_row(usage, UsageKind::Volumes));
    rows.push(usage_row(usage, UsageKind::BuildCache));
    rows
}

/// A line of text where `wanted`, nothing otherwise.
pub open spec fn line_when(wanted: bool, line: Seq<char>) -> Seq<Seq<char>> {
    if wanted {
        seq![line]
    } else {
        Seq::empty()
    }
}

/// Number of items of a category that the snapshot counts as not in use.
pub open spec fn unused_of(usage: DiskUsage, kind: UsageKind) -> nat {
    spec_unused_count(
        usage.spec_category(kind).total_count as int,
        usage.spec_category(kind).active_count as int,
    ) as nat
}

/// What the safe purge would remove, one line for each category of which
/// something is unused: dangling images, stopped containers, unused
/// volumes, and the build cache where any of it can go.
pub open spec fn reclaim_lines(usage: DiskUsage) -> Seq<Seq<char>> {
    line_when(
        unused_of(usage, UsageKind::Images) > 0,
        counted_text(Seq::empty(), unused_of(usage, UsageKind::Images), " dangling images ("@)
            + sized_text(Seq::empty(), usage.images_reclaimable, ")"@),
    ) + line_when(
        unused_of(usage, UsageKind::Containers) > 0,
        counted_text(
            Seq::empty(),
            unused_of(usage, UsageKind::Containers),
            " stopped containers ("@,
        ) + sized_text(Seq::empty(), usage.containers_reclaimable, ")"@),
    ) + line_when(
        unused_of(usage, UsageKind::Volumes) > 0,
        counted_text(Seq::empty(), unused_of(usage, UsageKind::Volumes), " unused volumes ("@)
            + sized_text(Seq::empty(), usage.volumes_reclaimable, ")"@),
    ) + line_when(
        usage.build_cache_reclaimable > 0,
        sized_text("Build cache ("@, usage.build_cache_reclaimable, ")"@),
    )
}

/// A count and a size in one line: the count, `noun`, the size, and a
/// closing parenthesis.
fn counted_and_sized(count: usize, noun: &str, bytes: u64) -> (line: String)
    ensures
        line@ == counted_text(Seq::empty(), count as nat, noun@) + sized_text(
            Seq::empty(),
            bytes,
            ")"@,
        ),
{
    proof {
        reveal_strlit("");
        assert(""@ =~= Seq::<char>::empty());
    }
    let mut line = counted("", count, noun);
    let size = sized("", bytes, ")");
    line.append(size.as_str());
    line
}

/// What the safe purge would remove, line by line.
pub fn reclaim_summary(usage: &DiskUsage) -> (lines: Vec<String>)
    ensures
        texts(lines@) == reclaim_lines(*usage),
{
    let mut lines: Vec<String> = Vec::new();
    let images = usage.category(UsageKind::Images).unused_count();
    let containers = usage.category(UsageKind::Containers).unused_count();
    let volumes = usage.category(UsageKind::Volumes).unused_count();
    if images > 0 {
        lines.push(counted_and_sized(images, " dangling images (", usage.images_reclaimable));
    }
    let ghost first = texts(lines@);
    assert(first =~= line_when(
        unused_of(*usage, UsageKind::Images) > 0,
        counted_text(Seq::empty(), unused_of(*usage, UsageKind::Images), " dangling images ("@)
            + sized_text(Seq::empty(), usage.images_reclaimable, ")"@),
    ));
    if containers > 0 {
        lines.push(
            counted_and_sized(containers, " stopped containers (", usage.containers_reclaimable),
        );
    }
    let ghost second = texts(lines@);
    assert(second =~= first + line_when(
        unused_of(*usage, UsageKind::Containers) > 0,
        counted_text(
            Seq::empty(),
            unused_of(*usage, UsageKind::Containers),
            " stopped containers ("@,
        ) + sized_text(Seq::empty(), usage.containers_reclaimable, ")"@),
    ));
    if volumes > 0 {
        lines.push(counted_and_sized(volumes, " unused volumes (", usage.volumes_reclaimable));
    }
    let ghost third = texts(lines@);
    assert(third =~= second + line_when(
        unused_of(*usage, UsageKind::Volumes) > 0,
        counted_text(Seq::empty(), unused_of(*usage, UsageKind::Volumes), " unused volumes ("@)
            + sized_text(Seq::empty(), usage.volumes_reclaimable, ")"@),
    ));
    if usage.build_cache_reclaimable > 0 {
        lines.push(sized("Build cache (", usage.build_cache_reclaimable, ")"));
    }
    assert(texts(lines@) =~= third + line_when(
        usage.build_cache_reclaimable > 0,
        sized_text("Build cache ("@, usage.build_cache_reclaimable, ")"@),
    ));
    lines
}

} // verus!
