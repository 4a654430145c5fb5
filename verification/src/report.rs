//! What a restore tells its user: sizes in binary units, the summary of a
//! finished run and the preview of a planned one.

use vstd::prelude::*;
use vstd::string::StringExecFns;
use crate::text::{decimal, push_decimal};
use crate::plan::planned_bytes;
use crate::types::{
    views, Conflict, ConflictView, CopiedFile, CopiedFileView, CopyError, CopyErrorView, CopyOp,
    CopyOpView, CopyPlan, CopyPlanView, CopyResult, CopyResultView, XdgDir,
};

verus! {

/// The bytes of a KiB.
pub const KIB: u64 = 1024;

/// The bytes of a MiB.
pub const MIB: u64 = 1_048_576;

/// The bytes of a GiB.
pub const GIB: u64 = 1_073_741_824;

/// Below this bound a binary64 number holds every whole number exactly.
pub const EXACT_DOUBLES: u64 = 0x20_0000_0000_0000;

/// The quotient of two numbers, rounded to the nearest whole number; where
/// two are equally near, the even one.
pub open spec fn round_half_even(num: nat, den: nat) -> nat {
    let q = num / den;
    let r = num % den;
    if 2 * r > den || (2 * r == den && q % 2 == 1) {
        q + 1
    } else {
        q
    }
}

/// The distance between neighbouring binary64 numbers around `n`: 1 up to
/// 2^53, and twice as much with every further bit.
pub open spec fn double_spacing(n: nat) -> nat
    decreases n,
{
    if n < EXACT_DOUBLES {
        1
    } else {
        2 * double_spacing(n / 2)
    }
}

/// The binary64 number nearest to `n`; where two are equally near, the one
/// with the even significand.
pub open spec fn nearest_double(n: nat) -> nat {
    round_half_even(n, double_spacing(n)) * double_spacing(n)
}

/// A number of tenths, written with one digit behind the point.
pub open spec fn one_decimal(tenths: nat) -> Seq<char> {
    decimal(tenths / 10) + "."@ + decimal(tenths % 10)
}

/// A size in bytes as a person reads it: in GiB, MiB or KiB with one digit
/// behind the point once it reaches such a unit, in whole bytes below that.
/// The digit behind the point is rounded to the nearest, to the even one on
/// a tie. A size too large for a binary64 number to hold it exactly is
/// taken as the binary64 number nearest to it; only sizes in GiB can be that
/// large.
pub open spec fn bytes_text(bytes: nat) -> Seq<char> {
    if bytes >= GIB {
        one_decimal(round_half_even(nearest_double(bytes) * 10, GIB as nat)) + " GiB"@
    } else if bytes >= MIB {
        one_decimal(round_half_even(bytes * 10, MIB as nat)) + " MiB"@
    } else if bytes >= KIB {
        one_decimal(round_half_even(bytes * 10, KIB as nat)) + " KiB"@
    } else {
        decimal(bytes) + " B"@
    }
}

/// Divides, rounding to the nearest whole number and to the even one on a tie.
fn rounded_quotient(num: u128, den: u128) -> (q: u128)
    requires
        0 < den <= u64::MAX,
        num <= u128::MAX - 1,
    ensures
        q == round_half_even(num as nat, den as nat),
{
    let q = num / den;
    let r = num % den;
    if 2 * r > den || (2 * r == den && q % 2 == 1) {
        q + 1
    } else {
        q
    }
}

/// The binary64 number nearest to a size.
fn nearest_double_to(bytes: u64) -> (near: u128)
    ensures
        near == nearest_double(bytes as nat),
        near <= 2 * bytes,
{
    let mut unit: u64 = 1;
    let mut top: u64 = bytes;
    while top >= EXACT_DOUBLES
        invariant
            1 <= unit <= 4096,
            top as int == bytes as int / unit as int,
            unit as int * top as int <= bytes as int,
            unit == 1 || top >= 0x10_0000_0000_0000,
            double_spacing(bytes as nat) == unit * double_spacing(top as nat),
        decreases top,
    {
        proof {
            vstd::arithmetic::div_mod::lemma_div_denominator(bytes as int, unit as int, 2);
            assert(unit as int * top as int >= unit as int * 0x20_0000_0000_0000) by (nonlinear_arith)
                requires
                    top >= 0x20_0000_0000_0000,
                    unit >= 1,
            ;
            assert((2 * unit) * (top as int / 2) <= unit as int * top as int) by (nonlinear_arith)
                requires
                    unit >= 1,
                    top >= 0,
            ;
            assert(unit * (2 * double_spacing(top as nat / 2)) == (2 * unit) * double_spacing(
                top as nat / 2,
            )) by (nonlinear_arith);
        }
        top = top / 2;
        unit = unit * 2;
    }
    assert(double_spacing(bytes as nat) == unit) by (nonlinear_arith)
        requires
            double_spacing(bytes as nat) == unit * double_spacing(top as nat),
            double_spacing(top as nat) == 1,
    ;
    let q = rounded_quotient(bytes as u128, unit as u128);
    proof {
        let n = bytes as int;
        let u = unit as int;
        vstd::arithmetic::div_mod::lemma_fundamental_div_mod(n, u);
        assert(q * u <= n + u) by (nonlinear_arith)
            requires
                q <= n / u + 1,
                n == u * (n / u) + n % u,
                0 <= n % u,
                u >= 1,
                q >= 0,
        ;
    }
    q * (unit as u128)
}

/// Appends a number of tenths, written with one digit behind the point.
fn push_one_decimal(out: &mut String, tenths: u128)
    ensures
        final(out)@ == old(out)@ + one_decimal(tenths as nat),
{
    push_decimal(out, tenths / 10);
    out.append(".");
    push_decimal(out, tenths % 10);
}

/// Appends a size in bytes as a person reads it.
fn push_bytes(out: &mut String, bytes: u64)
    ensures
        final(out)@ == old(out)@ + bytes_text(bytes as nat),
{
    if bytes >= GIB {
        let near = nearest_double_to(bytes);
        push_one_decimal(out, rounded_quotient(near * 10, GIB as u128));
        out.append(" GiB");
    } else if bytes >= MIB {
        push_one_decimal(out, rounded_quotient(bytes as u128 * 10, MIB as u128));
        out.append(" MiB");
    } else if bytes >= KIB {
        push_one_decimal(out, rounded_quotient(bytes as u128 * 10, KIB as u128));
        out.append(" KiB");
    } else {
        push_decimal(out, bytes as u128);
        out.append(" B");
    }
}

/// A size in bytes as a person reads it: `500 B`, `1.0 KiB`, `5.2 KiB`.
pub fn format_bytes(bytes: u64) -> (text: String)
    ensures
        text@ == bytes_text(bytes as nat),
{
    let mut text = String::new();
    push_bytes(&mut text, bytes);
    text
}

/// The time that a run took: whole seconds, and the billionths of a second
/// beyond them.
#[derive(Debug, Clone, Copy, PartialEq, Eq, Structural)]
pub struct Elapsed {
    pub secs: u64,
    pub nanos: u32,
}

/// A time in seconds with one digit behind the point, rounded to the nearest
/// tenth and to the even one on a tie.
pub open spec fn elapsed_text(elapsed: Elapsed) -> Seq<char> {
    one_decimal(
        round_half_even(
            (elapsed.secs * 1_000_000_000 + elapsed.nanos) as nat,
            100_000_000,
        ),
    )
}

/// How often a directory occurs in a sequence of directories.
pub open spec fn occurrences(dirs: Seq<XdgDir>, dir: XdgDir) -> nat
    decreases dirs.len(),
{
    if dirs.len() == 0 {
        0
    } else {
        occurrences(dirs.drop_last(), dir) + if dirs.last() == dir {
            1nat
        } else {
            0nat
        }
    }
}

/// The directories of the copied files, in their order.
pub open spec fn copied_dirs(items: Seq<CopiedFileView>) -> Seq<XdgDir> {
    items.map_values(|item: CopiedFileView| item.xdg_dir)
}

/// The directories of the conflicts, in their order.
pub open spec fn conflict_dirs(items: Seq<ConflictView>) -> Seq<XdgDir> {
    items.map_values(|item: ConflictView| item.xdg_dir)
}

/// The directories of the errors, in their order.
pub open spec fn error_dirs(items: Seq<CopyErrorView>) -> Seq<XdgDir> {
    items.map_values(|item: CopyErrorView| item.xdg_dir)
}

/// The first lines of a summary: the counts, the bytes and the time.
pub open spec fn summary_head(result: CopyResultView, elapsed: Elapsed) -> Seq<char> {
    "\n--- Restore Summary ---\n"@ + decimal(result.copied.len()) + " files copied, "@ + decimal(
        result.conflicts.len(),
    ) + " conflicts, "@ + decimal(result.errors.len()) + " errors\nTotal: "@ + bytes_text(
        result.bytes_copied,
    ) + " in "@ + elapsed_text(elapsed) + "s\n"@
}

/// The line of one directory in a summary; nothing for a directory without
/// a record.
pub open spec fn summary_dir_line(result: CopyResultView, dir: XdgDir) -> Seq<char> {
    let copied = occurrences(copied_dirs(result.copied), dir);
    let conflicts = occurrences(conflict_dirs(result.conflicts), dir);
    let errors = occurrences(error_dirs(result.errors), dir);
    if copied == 0 && conflicts == 0 && errors == 0 {
        Seq::empty()
    } else {
        "  "@ + dir.name() + " "@ + decimal(copied) + " copied, "@ + decimal(conflicts)
            + " conflicts, "@ + decimal(errors) + " errors\n"@
    }
}

/// The lines of the first `count` directories in a summary.
pub open spec fn summary_dir_lines(result: CopyResultView, count: nat) -> Seq<char>
    decreases count,
{
    if count == 0 || count > 8 {
        Seq::empty()
    } else {
        summary_dir_lines(result, (count - 1) as nat) + summary_dir_line(
            result,
            XdgDir::ALL[count - 1],
        )
    }
}

/// The part of a summary that counts by directory; nothing where there is
/// no record at all.
pub open spec fn summary_dirs(result: CopyResultView) -> Seq<char> {
    if result.copied.len() == 0 && result.conflicts.len() == 0 && result.errors.len() == 0 {
        Seq::empty()
    } else {
        "\nPer directory:\n"@ + summary_dir_lines(result, 8)
    }
}

/// What is said of one error: the directory, the two paths and the cause.
pub open spec fn error_text(error: CopyErrorView) -> Seq<char> {
    error.xdg_dir.name() + ": "@ + error.source + " \u{2192} "@ + error.dest + " ("@
        + error.error.message + ")"@
}

/// One line for each error.
pub open spec fn error_lines(errors: Seq<CopyErrorView>) -> Seq<char>
    decreases errors.len(),
{
    if errors.len() == 0 {
        Seq::empty()
    } else {
        error_lines(errors.drop_last()) + "  "@ + error_text(errors.last()) + "\n"@
    }
}

/// The part of a summary that lists the errors; nothing where there is none.
pub open spec fn summary_errors(errors: Seq<CopyErrorView>) -> Seq<char> {
    if errors.len() == 0 {
        Seq::empty()
    } else {
        "\nErrors:\n"@ + error_lines(errors)
    }
}

/// One line for each conflict: the path that was taken, and the path that
/// the content went to.
pub open spec fn conflict_lines(conflicts: Seq<ConflictView>) -> Seq<char>
    decreases conflicts.len(),
{
    if conflicts.len() == 0 {
        Seq::empty()
    } else {
        conflict_lines(conflicts.drop_last()) + "  "@ + conflicts.last().original_path
            + " \u{2192} "@ + conflicts.last().restore_path + "\n"@
    }
}

/// The part of a summary that lists the conflicts: all of them up to ten,
/// else the first five and the number of the others.
pub open spec fn summary_conflicts(conflicts: Seq<ConflictView>) -> Seq<char> {
    if conflicts.len() == 0 {
        Seq::empty()
    } else if conflicts.len() <= 10 {
        "\nConflicts:\n"@ + conflict_lines(conflicts)
    } else {
        "\nConflicts:\n"@ + conflict_lines(conflicts.take(5)) + "  ... and "@ + decimal(
            (conflicts.len() - 5) as nat,
        ) + " more\n"@
    }
}

/// The summary of a finished run.
pub open spec fn report_text(result: CopyResultView, elapsed: Elapsed) -> Seq<char> {
    summary_head(result, elapsed) + summary_dirs(result) + summary_errors(result.errors)
        + summary_conflicts(result.conflicts)
}

/// How many of the copied files belong to a directory.
fn count_copied(items: &Vec<CopiedFile>, dir: XdgDir) -> (count: usize)
    ensures
        count == occurrences(copied_dirs(views(items@)), dir),
{
    let ghost dirs = copied_dirs(views(items@));
    let mut count: usize = 0;
    let mut i: usize = 0;
    while i < items.len()
        invariant
            i <= items.len(),
            dirs == copied_dirs(views(items@)),
            count == occurrences(dirs.take(i as int), dir),
            count <= i,
        decreases items.len() - i,
    {
        assert(dirs.take(i + 1).drop_last() =~= dirs.take(i as int));
        if items[i].xdg_dir == dir {
            count = count + 1;
        }
        i = i + 1;
    }
    assert(dirs.take(i as int) =~= dirs);
    count
}

/// How many of the conflicts belong to a directory.
fn count_conflicts(items: &Vec<Conflict>, dir: XdgDir) -> (count: usize)
    ensures
        count == occurrences(conflict_dirs(views(items@)), dir),
{
    let ghost dirs = conflict_dirs(views(items@));
    let mut count: usize = 0;
    let mut i: usize = 0;
    while i < items.len()
        invariant
            i <= items.len(),
            dirs == conflict_dirs(views(items@)),
            count == occurrences(dirs.take(i as int), dir),
            count <= i,
        decreases items.len() - i,
    {
        assert(dirs.take(i + 1).drop_last() =~= dirs.take(i as int));
        if items[i].xdg_dir == dir {
            count = count + 1;
        }
        i = i + 1;
    }
    assert(dirs.take(i as int) =~= dirs);
    count
}

/// How many of the errors belong to a directory.
fn count_errors(items: &Vec<CopyError>, dir: XdgDir) -> (count: usize)
    ensures
        count == occurrences(error_dirs(views(items@)), dir),
{
    let ghost dirs = error_dirs(views(items@));
    let mut count: usize = 0;
    let mut i: usize = 0;
    while i < items.len()
        invariant
            i <= items.len(),
            dirs == error_dirs(views(items@)),
            count == occurrences(dirs.take(i as int), dir),
            count <= i,
        decreases items.len() - i,
    {
        assert(dirs.take(i + 1).drop_last() =~= dirs.take(i as int));
        if items[i].xdg_dir == dir {
            count = count + 1;
        }
        i = i + 1;
    }
    assert(dirs.take(i as int) =~= dirs);
    count
}

/// Appends a time in seconds with one digit behind the point.
fn push_elapsed(out: &mut String, elapsed: Elapsed)
    ensures
        final(out)@ == old(out)@ + elapsed_text(elapsed),
{
    let nanos: u128 = elapsed.secs as u128 * 1_000_000_000 + elapsed.nanos as u128;
    push_one_decimal(out, rounded_quotient(nanos, 100_000_000));
}

/// Appends the first lines of a summary.
fn push_summary_head(out: &mut String, result: &CopyResult, elapsed: Elapsed)
    ensures
        final(out)@ == old(out)@ + summary_head(result@, elapsed),
{
    out.append("\n--- Restore Summary ---\n");
    push_decimal(out, result.copied.len() as u128);
    out.append(" files copied, ");
    push_decimal(out, result.conflicts.len() as u128);
    out.append(" conflicts, ");
    push_decimal(out, result.errors.len() as u128);
    out.append(" errors\nTotal: ");
    push_bytes(out, result.bytes_copied);
    out.append(" in ");
    push_elapsed(out, elapsed);
    out.append("s\n");
}

/// Appends the line of one directory in a summary, if it has one.
fn push_summary_dir_line(out: &mut String, result: &CopyResult, dir: XdgDir)
    ensures
        final(out)@ == old(out)@ + summary_dir_line(result@, dir),
{
    let copied = count_copied(&result.copied, dir);
    let conflicts = count_conflicts(&result.conflicts, dir);
    let errors = count_errors(&result.errors, dir);
    if copied != 0 || conflicts != 0 || errors != 0 {
        out.append("  ");
        out.append(dir.dir_name());
        out.append(" ");
        push_decimal(out, copied as u128);
        out.append(" copied, ");
        push_decimal(out, conflicts as u128);
        out.append(" conflicts, ");
        push_decimal(out, errors as u128);
        out.append(" errors\n");
    }
}

/// Appends the part of a summary that counts by directory.
fn push_summary_dirs(out: &mut String, result: &CopyResult)
    ensures
        final(out)@ == old(out)@ + summary_dirs(result@),
{
    if result.copied.len() != 0 || result.conflicts.len() != 0 || result.errors.len() != 0 {
        out.append("\nPer directory:\n");
        let ghost start = out@;
        let mut i: usize = 0;
        while i < 8
            invariant
                i <= 8,
                out@ == start + summary_dir_lines(result@, i as nat),
            decreases 8 - i,
        {
            push_summary_dir_line(out, result, XdgDir::ALL[i]);
            i = i + 1;
        }
    }
}

/// Appends what is said of one error.
fn push_error_text(out: &mut String, error: &CopyError)
    ensures
        final(out)@ == old(out)@ + error_text(error@),
{
    out.append(error.xdg_dir.dir_name());
    out.append(": ");
    out.append(error.source.as_str());
    out.append(" \u{2192} ");
    out.append(error.dest.as_str());
    out.append(" (");
    out.append(error.error.message.as_str());
    out.append(")");
}

/// Appends the part of a summary that lists the errors.
fn push_summary_errors(out: &mut String, errors: &Vec<CopyError>)
    ensures
        final(out)@ == old(out)@ + summary_errors(views(errors@)),
{
    if errors.len() != 0 {
        out.append("\nErrors:\n");
        let ghost start = out@;
        let ghost all = views(errors@);
        let mut i: usize = 0;
        while i < errors.len()
            invariant
                i <= errors.len(),
                all == views(errors@),
                out@ == start + error_lines(all.take(i as int)),
            decreases errors.len() - i,
        {
            assert(all.take(i + 1).drop_last() =~= all.take(i as int));
            out.append("  ");
            push_error_text(out, &errors[i]);
            out.append("\n");
            i = i + 1;
        }
        assert(all.take(i as int) =~= all);
    }
}

/// Appends the lines of the first `count` conflicts.
fn push_conflict_lines(out: &mut String, conflicts: &Vec<Conflict>, count: usize)
    requires
        count <= conflicts.len(),
    ensures
        final(out)@ == old(out)@ + conflict_lines(views(conflicts@).take(count as int)),
{
    let ghost all = views(conflicts@);
    let mut i: usize = 0;
    while i < count
        invariant
            i <= count <= conflicts.len(),
            all == views(conflicts@),
            out@ == old(out)@ + conflict_lines(all.take(i as int)),
        decreases count - i,
    {
        assert(all.take(i + 1).drop_last() =~= all.take(i as int));
        let conflict = &conflicts[i];
        out.append("  ");
        out.append(conflict.original_path.as_str());
        out.append(" \u{2192} ");
        out.append(conflict.restore_path.as_str());
        out.append("\n");
        i = i + 1;
    }
}

/// Appends the part of a summary that lists the conflicts.
fn push_summary_conflicts(out: &mut String, conflicts: &Vec<Conflict>)
    ensures
        final(out)@ == old(out)@ + summary_conflicts(views(conflicts@)),
{
    let ghost all = views(conflicts@);
    if conflicts.len() != 0 {
        out.append("\nConflicts:\n");
        if conflicts.len() <= 10 {
            push_conflict_lines(out, conflicts, conflicts.len());
            assert(all.take(conflicts.len() as int) =~= all);
        } else {
            push_conflict_lines(out, conflicts, 5);
            out.append("  ... and ");
            push_decimal(out, (conflicts.len() - 5) as u128);
            out.append(" more\n");
        }
    }
}

impl CopyError {
    /// What is said of this error: the directory, the two paths and the cause.
    pub fn describe(&self) -> (text: String)
        ensures
            text@ == error_text(self@),
    {
        let mut text = String::new();
        push_error_text(&mut text, self);
        text
    }
}

/// Format a summary report of the copy operation: the counts of copied
/// files, conflicts and errors, the bytes and the time, the counts by
/// directory in the order of the directories' names, every error, and the
/// conflicts (the first five where there are more than ten).
pub fn format_report(result: &CopyResult, elapsed: Elapsed) -> (out: String)
    ensures
        out@ == report_text(result@, elapsed),
{
    let mut out = String::new();
    push_summary_head(&mut out, result, elapsed);
    push_summary_dirs(&mut out, result);
    push_summary_errors(&mut out, &result.errors);
    push_summary_conflicts(&mut out, &result.conflicts);
    out
}

/// The directories of the planned copies, in their order.
pub open spec fn file_dirs(files: Seq<CopyOpView>) -> Seq<XdgDir> {
    files.map_values(|file: CopyOpView| file.xdg_dir)
}

/// The bytes of the planned copies that belong to a directory.
pub open spec fn dir_bytes(files: Seq<CopyOpView>, dir: XdgDir) -> nat
    decreases files.len(),
{
    if files.len() == 0 {
        0
    } else {
        dir_bytes(files.drop_last(), dir) + if files.last().xdg_dir == dir {
            files.last().size as nat
        } else {
            0nat
        }
    }
}

/// The first lines of a preview: the files, their bytes and the
/// directories to create.
pub open spec fn preview_head(plan: CopyPlanView) -> Seq<char> {
    "\n--- Dry Run ---\n"@ + decimal(plan.files.len()) + " files, "@ + bytes_text(
        plan.total_bytes,
    ) + " total\n"@ + decimal(plan.dirs.len()) + " directories to create\n"@
}

/// The line of one directory in a preview; nothing for a directory without
/// a file.
pub open spec fn preview_dir_line(plan: CopyPlanView, dir: XdgDir) -> Seq<char> {
    let files = occurrences(file_dirs(plan.files), dir);
    if files == 0 {
        Seq::empty()
    } else {
        "  "@ + dir.name() + " "@ + decimal(files) + " files, "@ + bytes_text(
            dir_bytes(plan.files, dir),
        ) + "\n"@
    }
}

/// The lines of the first `count` directories in a preview.
pub open spec fn preview_dir_lines(plan: CopyPlanView, count: nat) -> Seq<char>
    decreases count,
{
    if count == 0 || count > 8 {
        Seq::empty()
    } else {
        preview_dir_lines(plan, (count - 1) as nat) + preview_dir_line(
            plan,
            XdgDir::ALL[count - 1],
        )
    }
}

/// The part of a preview that counts by directory; nothing where no file
/// is planned.
pub open spec fn preview_dirs(plan: CopyPlanView) -> Seq<char> {
    if plan.files.len() == 0 {
        Seq::empty()
    } else {
        "\nPer directory:\n"@ + preview_dir_lines(plan, 8)
    }
}

/// The places, among the first `count` files, of those whose destination
/// was found taken. A file without a flag counts as free.
pub open spec fn taken_places(count: nat, taken: Seq<bool>) -> Seq<usize>
    decreases count,
{
    if count == 0 {
        Seq::empty()
    } else if count <= taken.len() && taken[count - 1] {
        taken_places((count - 1) as nat, taken).push((count - 1) as usize)
    } else {
        taken_places((count - 1) as nat, taken)
    }
}

/// One line for each of the given places: the destination of the file
/// there.
pub open spec fn dest_lines(files: Seq<CopyOpView>, places: Seq<usize>) -> Seq<char>
    decreases places.len(),
{
    if places.len() == 0 {
        Seq::empty()
    } else {
        dest_lines(files, places.drop_last()) + "  "@ + files[places.last() as int].dest
            + "\n"@
    }
}

/// The part of a preview that lists the destinations found taken; nothing
/// where there is none.
pub open spec fn preview_conflicts(plan: CopyPlanView, taken: Seq<bool>) -> Seq<char> {
    let places = taken_places(plan.files.len(), taken);
    if places.len() == 0 {
        Seq::empty()
    } else {
        "\n"@ + decimal(places.len()) + " conflict"@ + if places.len() == 1 {
            ""@
        } else {
            "s"@
        } + " (existing files at destination):\n"@ + dest_lines(plan.files, places)
    }
}

/// The preview of a planned run.
pub open spec fn dry_run_text(plan: CopyPlanView, taken: Seq<bool>) -> Seq<char> {
    preview_head(plan) + preview_dirs(plan) + preview_conflicts(plan, taken)
}

/// The bytes of one directory are among the bytes of all.
pub proof fn lemma_dir_bytes_bounded(files: Seq<CopyOpView>, dir: XdgDir)
    ensures
        dir_bytes(files, dir) <= planned_bytes(files),
    decreases files.len(),
{
    if files.len() > 0 {
        lemma_dir_bytes_bounded(files.drop_last(), dir);
    }
}

/// The bytes of the first files are among the bytes of all.
proof fn lemma_dir_bytes_grow(files: Seq<CopyOpView>, dir: XdgDir, count: int)
    requires
        0 <= count <= files.len(),
    ensures
        dir_bytes(files.take(count), dir) <= dir_bytes(files, dir),
    decreases files.len(),
{
    if count == files.len() {
        assert(files.take(count) =~= files);
    } else {
        assert(files.drop_last().take(count) =~= files.take(count));
        lemma_dir_bytes_grow(files.drop_last(), dir, count);
    }
}

/// How many of the planned copies belong to a directory, and their bytes.
fn count_files(files: &Vec<CopyOp>, dir: XdgDir) -> (found: (usize, u64))
    requires
        planned_bytes(views(files@)) <= u64::MAX,
    ensures
        found.0 == occurrences(file_dirs(views(files@)), dir),
        found.1 == dir_bytes(views(files@), dir),
{
    let ghost all = views(files@);
    let ghost dirs = file_dirs(all);
    let mut count: usize = 0;
    let mut bytes: u64 = 0;
    let mut i: usize = 0;
    while i < files.len()
        invariant
            i <= files.len(),
            all == views(files@),
            dirs == file_dirs(all),
            count == occurrences(dirs.take(i as int), dir),
            bytes == dir_bytes(all.take(i as int), dir),
            count <= i,
            planned_bytes(all) <= u64::MAX,
        decreases files.len() - i,
    {
        proof {
            assert(dirs.take(i + 1).drop_last() =~= dirs.take(i as int));
            assert(all.take(i + 1).drop_last() =~= all.take(i as int));
            lemma_dir_bytes_grow(all, dir, i + 1);
            lemma_dir_bytes_bounded(all, dir);
        }
        if files[i].xdg_dir == dir {
            count = count + 1;
            bytes = bytes + files[i].size;
        }
        i = i + 1;
    }
    assert(dirs.take(i as int) =~= dirs);
    assert(all.take(i as int) =~= all);
    (count, bytes)
}

/// Appends the first lines of a preview.
fn push_preview_head(out: &mut String, plan: &CopyPlan)
    ensures
        final(out)@ == old(out)@ + preview_head(plan@),
{
    out.append("\n--- Dry Run ---\n");
    push_decimal(out, plan.files.len() as u128);
    out.append(" files, ");
    push_bytes(out, plan.total_bytes);
    out.append(" total\n");
    push_decimal(out, plan.dirs.len() as u128);
    out.append(" directories to create\n");
}

/// Appends the line of one directory in a preview, if it has one.
fn push_preview_dir_line(out: &mut String, plan: &CopyPlan, dir: XdgDir)
    requires
        planned_bytes(plan@.files) <= u64::MAX,
    ensures
        final(out)@ == old(out)@ + preview_dir_line(plan@, dir),
{
    let (files, bytes) = count_files(&plan.files, dir);
    if files != 0 {
        out.append("  ");
        out.append(dir.dir_name());
        out.append(" ");
        push_decimal(out, files as u128);
        out.append(" files, ");
        push_bytes(out, bytes);
        out.append("\n");
    }
}

/// Appends the part of a preview that counts by directory.
fn push_preview_dirs(out: &mut String, plan: &CopyPlan)
    requires
        planned_bytes(plan@.files) <= u64::MAX,
    ensures
        final(out)@ == old(out)@ + preview_dirs(plan@),
{
    if plan.files.len() != 0 {
        out.append("\nPer directory:\n");
        let ghost start = out@;
        let mut i: usize = 0;
        while i < 8
            invariant
                i <= 8,
                out@ == start + preview_dir_lines(plan@, i as nat),
                planned_bytes(plan@.files) <= u64::MAX,
            decreases 8 - i,
        {
            push_preview_dir_line(out, plan, XdgDir::ALL[i]);
            i = i + 1;
        }
    }
}

/// The places of the files whose destination was found taken.
fn find_taken(count: usize, taken: &Vec<bool>) -> (places: Vec<usize>)
    ensures
        places@ == taken_places(count as nat, taken@),
        forall|k: int| 0 <= k < places.len() ==> places[k] < count,
{
    let mut places: Vec<usize> = Vec::new();
    let mut i: usize = 0;
    while i < count
        invariant
            i <= count,
            places@ == taken_places(i as nat, taken@),
            forall|k: int| 0 <= k < places.len() ==> places[k] < i,
        decreases count - i,
    {
        if i < taken.len() && taken[i] {
            places.push(i);
        }
        i = i + 1;
    }
    places
}

/// Appends the part of a preview that lists the destinations found taken.
fn push_preview_conflicts(out: &mut String, plan: &CopyPlan, taken: &Vec<bool>)
    ensures
        final(out)@ == old(out)@ + preview_conflicts(plan@, taken@),
{
    let places = find_taken(plan.files.len(), taken);
    let ghost files = plan@.files;
    if places.len() != 0 {
        out.append("\n");
        push_decimal(out, places.len() as u128);
        out.append(" conflict");
        out.append(
            if places.len() == 1 {
                ""
            } else {
                "s"
            },
        );
        out.append(" (existing files at destination):\n");
        let ghost start = out@;
        let mut i: usize = 0;
        while i < places.len()
            invariant
                i <= places.len(),
                files == plan@.files,
                forall|k: int| 0 <= k < places.len() ==> places[k] < plan.files.len(),
                out@ == start + dest_lines(files, places@.take(i as int)),
            decreases places.len() - i,
        {
            assert(places@.take(i + 1).drop_last() =~= places@.take(i as int));
            out.append("  ");
            out.append(plan.files[places[i]].dest.as_str());
            out.append("\n");
            i = i + 1;
        }
        assert(places@.take(i as int) =~= places@);
    }
}

/// Format a preview of what a copy plan would do, without executing it:
/// the files and their bytes, the directories to create, the files and
/// bytes by directory in the order of the directories' names, and the
/// destinations that were found taken. `taken` holds, for each file of the
/// plan in turn, whether something was found at its destination; that
/// finding is advice and may be out of date when the plan is run.
pub fn format_dry_run_report(plan: &CopyPlan, taken: &Vec<bool>) -> (out: String)
    requires
        planned_bytes(plan@.files) <= u64::MAX,
    ensures
        out@ == dry_run_text(plan@, taken@),
{
    let mut out = String::new();
    push_preview_head(&mut out, plan);
    push_preview_dirs(&mut out, plan);
    push_preview_conflicts(&mut out, plan, taken);
    out
}

} // verus!
