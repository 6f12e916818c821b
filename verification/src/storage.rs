//! Storage health: how much the workspace holds, and the free and total
//! space of the file system it lives on.

use vstd::prelude::*;
use crate::text::{cat, cat3, lines, lines_of, split_whitespace, words_of, trim, trimmed, views, owned};
use crate::numbers::{decimal, decimal_string, parse_u64, parse_u64_spec, int_error_message, int_error_text, saturating_mul, IntErrorKind};

verus! {

/// The sum of `sizes`, stopping at `u64::MAX`.
pub open spec fn saturating_total(sizes: Seq<u64>) -> u64
    decreases sizes.len(),
{
    if sizes.len() == 0 {
        0
    } else {
        let t = saturating_total(sizes.drop_last());
        if t + sizes.last() > u64::MAX {
            u64::MAX
        } else {
            (t + sizes.last()) as u64
        }
    }
}

/// The bytes used by the workspace's files (their sizes added up, saturating)
/// and the free bytes of its file system; the error of whichever failed
/// first.
pub fn workspace_usage(file_sizes: Result<Vec<u64>, String>, space: Result<(u64, u64, u64), String>) -> (r: Result<(u64, u64), String>)
    ensures
        file_sizes matches Err(e) ==> r == Err::<(u64, u64), String>(e),
        file_sizes matches Ok(s) ==> (space matches Err(e) ==> r == Err::<(u64, u64), String>(e)),
        file_sizes matches Ok(s) ==> (space matches Ok(t) ==> r == Ok::<(u64, u64), String>(
            (saturating_total(s@), t.1),
        )),
{
    let sizes = file_sizes?;
    let mut used: u64 = 0;
    let mut i: usize = 0;
    assert(sizes@.take(0) =~= Seq::<u64>::empty());
    while i < sizes.len()
        invariant
            i <= sizes.len(),
            used == saturating_total(sizes@.take(i as int)),
        decreases sizes.len() - i,
    {
        assert(sizes@.take(i + 1).drop_last() =~= sizes@.take(i as int));
        used = used.saturating_add(sizes[i]);
        i += 1;
    }
    assert(sizes@.take(sizes.len() as int) =~= sizes@);
    let (_, free, _) = space?;
    Ok((used, free))
}

/// The last line of `df -Pk` output.
pub open spec fn last_line(text: Seq<char>) -> Seq<char> {
    let l = lines_of(text);
    if l.len() == 0 {
        Seq::empty()
    } else {
        l.last()
    }
}

/// The capacity `df -Pk` reports: from its last line, column 2 (total KiB)
/// and column 4 (available KiB), each times 1024 (saturating); the free
/// space is given twice.
pub open spec fn df_capacity(text: Seq<char>) -> Result<(u64, u64, u64), Seq<char>> {
    let cols = words_of(last_line(text));
    if cols.len() < 4 {
        Err("Unable to determine filesystem capacity"@)
    } else {
        match parse_u64_spec(cols[1]) {
            Err(k) => Err("invalid filesystem total: "@ + int_error_text(k)),
            Ok(total_kb) => match parse_u64_spec(cols[3]) {
                Err(k) => Err("invalid filesystem free space: "@ + int_error_text(k)),
                Ok(free_kb) => {
                    let total = if total_kb * 1024 > u64::MAX { u64::MAX } else { (total_kb * 1024) as u64 };
                    let free = if free_kb * 1024 > u64::MAX { u64::MAX } else { (free_kb * 1024) as u64 };
                    Ok((total, free, free))
                },
            },
        }
    }
}

/// Reads the file-system capacity from the output of `df -Pk <path>`.
pub fn parse_df_output(stdout: &str) -> (r: Result<(u64, u64, u64), String>)
    ensures
        match df_capacity(stdout@) {
            Ok(t) => r == Ok::<(u64, u64, u64), String>(t),
            Err(m) => r matches Err(e) && e@ == m,
        },
{
    let all = lines(stdout);
    let last = if all.len() == 0 {
        String::new()
    } else {
        assert(views(all@)[all.len() - 1] == all@[all.len() - 1]@);
        all[all.len() - 1].clone()
    };
    assert(last@ == last_line(stdout@));
    let cols = split_whitespace(last.as_str());
    if cols.len() < 4 {
        return Err(owned("Unable to determine filesystem capacity"));
    }
    assert(views(cols@)[1] == cols@[1]@);
    assert(views(cols@)[3] == cols@[3]@);
    let total_kb = match parse_u64(cols[1].as_str()) {
        Ok(v) => v,
        Err(k) => return Err(cat("invalid filesystem total: ", int_error_message(k))),
    };
    let free_kb = match parse_u64(cols[3].as_str()) {
        Ok(v) => v,
        Err(k) => return Err(cat("invalid filesystem free space: ", int_error_message(k))),
    };
    let total = saturating_mul(total_kb, 1024);
    let free = saturating_mul(free_kb, 1024);
    Ok((total, free, free))
}

/// The message of a failed `df`: its error output, trimmed.
pub fn df_failure(stderr: &str) -> (r: String)
    ensures
        r@ == trimmed(stderr@),
{
    trim(stderr)
}

/// The bytes of the file system in use: total minus free, never below zero.
pub fn filesystem_used(total: u64, free: u64) -> (r: u64)
    ensures
        r == (if total >= free { total - free } else { 0 }),
{
    total.saturating_sub(free)
}

/// The storage report:
/// `workspace_used_bytes=…`, `free_bytes=…`, `filesystem_total_bytes=…` and
/// `filesystem_usage_percent=…`, one per line, with the percentage given as
/// already formatted to one decimal place.
pub fn storage_snapshot(workspace_used: u64, free: u64, total: u64, usage_percent: &str) -> (r: String)
    ensures
        r@ == "workspace_used_bytes="@ + decimal(workspace_used as nat) + "\nfree_bytes="@ + decimal(free as nat)
            + "\nfilesystem_total_bytes="@ + decimal(total as nat) + "\nfilesystem_usage_percent="@ + usage_percent@,
{
    let mut r = owned("workspace_used_bytes=");
    let a = decimal_string(workspace_used);
    r.append(a.as_str());
    r.append("\nfree_bytes=");
    let b = decimal_string(free);
    r.append(b.as_str());
    r.append("\nfilesystem_total_bytes=");
    let c = decimal_string(total);
    r.append(c.as_str());
    r.append("\nfilesystem_usage_percent=");
    r.append(usage_percent);
    r
}

/// The plain sum of the sizes.
pub open spec fn size_sum(sizes: Seq<u64>) -> int {
    sizes.fold_left(0int, |acc: int, x: u64| acc + x)
}

/// The bytes a workspace uses are the sum of every file's size, however
/// many files share a size, or `u64::MAX` when the sum does not fit.
pub proof fn law_usage_is_the_sum(sizes: Seq<u64>)
    ensures
        size_sum(sizes) <= u64::MAX ==> saturating_total(sizes) == size_sum(sizes),
        size_sum(sizes) > u64::MAX ==> saturating_total(sizes) == u64::MAX,
    decreases sizes.len(),
{
    if sizes.len() > 0 {
        let d = sizes.drop_last();
        law_usage_is_the_sum(d);
        lemma_sum_nonneg(d);
        assert(size_sum(sizes) == size_sum(d) + sizes.last());
    }
}

proof fn lemma_sum_nonneg(sizes: Seq<u64>)
    ensures
        size_sum(sizes) >= 0,
    decreases sizes.len(),
{
    if sizes.len() > 0 {
        lemma_sum_nonneg(sizes.drop_last());
    }
}

/// Adding one more file adds its size to the used bytes, unless the total
/// reaches `u64::MAX`.
pub proof fn law_usage_adds_each_file(sizes: Seq<u64>, x: u64)
    ensures
        saturating_total(sizes) + x <= u64::MAX ==> saturating_total(sizes.push(x)) == saturating_total(sizes) + x,
        saturating_total(sizes) + x > u64::MAX ==> saturating_total(sizes.push(x)) == u64::MAX,
{
    law_usage_is_the_sum(sizes);
    law_usage_is_the_sum(sizes.push(x));
    lemma_sum_nonneg(sizes);
    assert(sizes.push(x).drop_last() =~= sizes);
    assert(size_sum(sizes.push(x)) == size_sum(sizes) + x);
}

} // verus!
