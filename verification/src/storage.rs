//! The directory in which downloads are staged: how much room there is, and what is
//! left there of downloads that did not end well.

use std::path::PathBuf;

use vstd::prelude::*;

use crate::numeral::decimal;
use crate::numeral::decimal_text;
use crate::telegram::jobs::is_job_dir;
use crate::telegram::jobs::job_dir;
use crate::telegram::jobs::law_job_dir_owner;
use crate::telegram::jobs::law_job_dir_recognised;
use crate::text::has_prefix;
use crate::text::law_prefix;
use crate::text::optional_text;
use crate::text::starts_with;

verus! {

/// The room on the partition of a directory.
#[derive(Debug, Clone)]
pub struct DiskSpace {
    pub total_bytes: u64,
    pub free_bytes: u64,
    pub used_bytes: u64,
    pub staging_path: String,
}

/// The directory in which downloads are staged.
pub struct StorageManager {
    pub download_dir: PathBuf,
}

/// An entry of the directory, with its name where it can be read.
#[derive(Debug, Clone)]
pub struct StagingEntry {
    pub name: Option<String>,
    pub is_dir: bool,
}

/// What becomes of an entry of the directory.
#[derive(Debug, Clone, Copy, PartialEq, Eq)]
pub enum PruneStep {
    Keep,
    RemoveFile,
    RemoveDirectory,
}

/// The beginning of the names of the directories in which process `pid` stages its
/// downloads.
pub open spec fn job_dir_prefix(pid: u32) -> Seq<char> {
    "rsdlp_job_"@ + decimal(pid as nat) + "_"@
}

/// A directory called `name` belongs to a download that may still be running, where
/// `live` is the process that runs downloads.
pub open spec fn is_live(name: Seq<char>, live: Option<u32>) -> bool {
    match live {
        Some(pid) => has_prefix(name, job_dir_prefix(pid)),
        None => false,
    }
}

/// What becomes of the entry called `name`.
pub open spec fn pruning(name: Option<Seq<char>>, is_dir: bool, live: Option<u32>) -> PruneStep {
    match name {
        Some(name) => if is_dir {
            if is_job_dir(name) && !is_live(name, live) {
                PruneStep::RemoveDirectory
            } else {
                PruneStep::Keep
            }
        } else if has_prefix(name, "rsdlp_"@) {
            PruneStep::RemoveFile
        } else {
            PruneStep::Keep
        },
        None => PruneStep::Keep,
    }
}

/// The number of the outcomes that are successes.
pub open spec fn successes(outcomes: Seq<bool>) -> nat
    decreases outcomes.len(),
{
    if outcomes.len() == 0 {
        0
    } else if outcomes.last() {
        successes(outcomes.drop_last()) + 1
    } else {
        successes(outcomes.drop_last())
    }
}

/// A number of bytes in a 64-bit counter.
pub open spec fn fits(blocks: u64, block_size: u64) -> bool {
    blocks * block_size <= u64::MAX
}

impl StorageManager {
    /// Takes charge of a directory.
    pub fn new(download_dir: PathBuf) -> (r: Self)
        ensures
            r.download_dir == download_dir,
    {
        StorageManager { download_dir }
    }

    /// The directory.
    pub fn download_dir(&self) -> (r: &PathBuf)
        ensures
            *r == self.download_dir,
    {
        &self.download_dir
    }

    fn prune_step(entry: &StagingEntry, live: Option<u32>) -> (r: PruneStep)
        ensures
            r == pruning(optional_text(entry.name), entry.is_dir, live),
    {
        let name = match &entry.name {
            Some(name) => name.as_str(),
            None => return PruneStep::Keep,
        };
        if !entry.is_dir {
            return if starts_with(name, "rsdlp_") {
                PruneStep::RemoveFile
            } else {
                PruneStep::Keep
            };
        }
        if !starts_with(name, "rsdlp_job_") {
            return PruneStep::Keep;
        }
        match live {
            Some(pid) => {
                let mut prefix = String::from_str("rsdlp_job_");
                prefix.append(decimal_text(pid as u64).as_str());
                prefix.append("_");
                if starts_with(name, prefix.as_str()) {
                    PruneStep::Keep
                } else {
                    PruneStep::RemoveDirectory
                }
            },
            None => PruneStep::RemoveDirectory,
        }
    }

    /// Decides what becomes of each entry of the directory: files that were left
    /// there are removed, and so are the directories of downloads, except for those
    /// of the process `live`. An entry whose name cannot be read is kept.
    pub fn prune_stale_files(entries: &Vec<StagingEntry>, live: Option<u32>) -> (r: Vec<PruneStep>)
        ensures
            r@.len() == entries@.len(),
            forall|i: int|
                0 <= i < entries@.len() ==> #[trigger] r@[i] == pruning(
                    optional_text(entries@[i].name),
                    entries@[i].is_dir,
                    live,
                ),
    {
        let mut steps: Vec<PruneStep> = Vec::new();
        let mut i: usize = 0;
        while i < entries.len()
            invariant
                i <= entries@.len(),
                steps@.len() == i,
                forall|k: int|
                    0 <= k < i ==> #[trigger] steps@[k] == pruning(
                        optional_text(entries@[k].name),
                        entries@[k].is_dir,
                        live,
                    ),
            decreases entries@.len() - i,
        {
            steps.push(Self::prune_step(&entries[i], live));
            i += 1;
        }
        steps
    }

    /// Counts the removals that succeeded.
    pub fn count_pruned(outcomes: &Vec<bool>) -> (r: usize)
        ensures
            r == successes(outcomes@),
    {
        let mut pruned: usize = 0;
        let mut i: usize = 0;
        while i < outcomes.len()
            invariant
                i <= outcomes@.len(),
                pruned <= i,
                pruned == successes(outcomes@.take(i as int)),
            decreases outcomes@.len() - i,
        {
            assert(outcomes@.take(i + 1).drop_last() =~= outcomes@.take(i as int));
            if outcomes[i] {
                pruned += 1;
            }
            i += 1;
        }
        assert(outcomes@.take(i as int) =~= outcomes@);
        pruned
    }

    /// Works out the room on a partition from the counts of its blocks.
    pub fn query_disk_space(
        blocks: u64,
        available: u64,
        block_size: u64,
        staging_path: String,
    ) -> (r: DiskSpace)
        requires
            fits(blocks, block_size),
            fits(available, block_size),
        ensures
            r.total_bytes == blocks * block_size,
            r.free_bytes == available * block_size,
            r.used_bytes == (if blocks * block_size >= available * block_size {
                blocks * block_size - available * block_size
            } else {
                0
            }),
            r.staging_path == staging_path,
    {
        let total_bytes = blocks * block_size;
        let free_bytes = available * block_size;
        let used_bytes = if total_bytes >= free_bytes {
            total_bytes - free_bytes
        } else {
            0
        };
        DiskSpace { total_bytes, free_bytes, used_bytes, staging_path }
    }
}

// ---------------------------------------------------------------------------
// Laws
// ---------------------------------------------------------------------------

/// What a crash left of a download is removed when the server starts, and later on
/// where another process left it. A download of this process is spared.
pub proof fn law_job_dirs_pruned(pid: u32, id: u64, live: u32)
    ensures
        pruning(Some(job_dir(pid, id)), true, None) == PruneStep::RemoveDirectory,
        pruning(Some(job_dir(pid, id)), true, Some(live)) == (if pid == live {
            PruneStep::Keep
        } else {
            PruneStep::RemoveDirectory
        }),
{
    law_job_dir_recognised(pid, id);
    law_job_dir_owner(pid, id, live);
}

/// An entry that does not bear the name of the server is kept.
pub proof fn law_foreign_entries_kept(name: Seq<char>, is_dir: bool, live: Option<u32>)
    requires
        !has_prefix(name, "rsdlp_"@),
    ensures
        pruning(Some(name), is_dir, live) == PruneStep::Keep,
{
    reveal_strlit("rsdlp_");
    reveal_strlit("rsdlp_job_");
    if is_job_dir(name) {
        assert(name.take(6) =~= name.take(10).take(6));
        assert("rsdlp_job_"@.take(6) =~= "rsdlp_"@);
    }
}

/// An entry is left of a download that is over: a file that bears the name of the
/// server, or the directory of a download that is not running.
pub open spec fn is_leftover(entry: StagingEntry, live: Option<u32>) -> bool {
    match entry.name {
        Some(name) => if entry.is_dir {
            is_job_dir(name@) && !is_live(name@, live)
        } else {
            has_prefix(name@, "rsdlp_"@)
        },
        None => false,
    }
}

/// The entries that are there after those that are to be removed are gone.
pub open spec fn remaining(entries: Seq<StagingEntry>, live: Option<u32>) -> Seq<StagingEntry>
    decreases entries.len(),
{
    if entries.len() == 0 {
        Seq::empty()
    } else {
        let last = entries.last();
        let rest = remaining(entries.drop_last(), live);
        if pruning(optional_text(last.name), last.is_dir, live) is Keep {
            rest.push(last)
        } else {
            rest
        }
    }
}

/// After pruning nothing is left of downloads that are over, and every other entry is
/// there as it was.
pub proof fn law_nothing_is_left(entries: Seq<StagingEntry>, live: Option<u32>)
    ensures
        forall|e: StagingEntry| #[trigger]
            remaining(entries, live).contains(e) <==> entries.contains(e) && !is_leftover(e, live),
    decreases entries.len(),
{
    if entries.len() > 0 {
        let front = entries.drop_last();
        let last = entries.last();
        let rest = remaining(front, live);
        let all = remaining(entries, live);
        law_nothing_is_left(front, live);
        assert forall|e: StagingEntry| #[trigger] all.contains(e) <==> entries.contains(e)
            && !is_leftover(e, live) by {
            if all.contains(e) {
                let k = choose|k: int| 0 <= k < all.len() && all[k] == e;
                if k < rest.len() {
                    assert(rest[k] == e);
                    assert(rest.contains(e));
                    let m = choose|m: int| 0 <= m < front.len() && front[m] == e;
                    assert(entries[m] == e);
                } else {
                    assert(entries[entries.len() - 1] == e);
                }
            }
            if entries.contains(e) && !is_leftover(e, live) {
                let k = choose|k: int| 0 <= k < entries.len() && entries[k] == e;
                if k < front.len() {
                    assert(front[k] == e);
                    assert(rest.contains(e));
                    let m = choose|m: int| 0 <= m < rest.len() && rest[m] == e;
                    assert(all[m] == e);
                } else {
                    assert(all[rest.len() as int] == e);
                }
            }
        }
    }
}

/// Pruning a second time finds nothing to remove.
pub proof fn law_second_pruning(entries: Seq<StagingEntry>, live: Option<u32>, i: int)
    requires
        0 <= i < remaining(entries, live).len(),
    ensures
        pruning(
            optional_text(remaining(entries, live)[i].name),
            remaining(entries, live)[i].is_dir,
            live,
        ) is Keep,
{
    law_nothing_is_left(entries, live);
    assert(remaining(entries, live).contains(remaining(entries, live)[i]));
}

/// A file that bears the name of the server is removed, whoever runs; no other file
/// is.
pub proof fn law_files_pruned(rest: Seq<char>, other: Seq<char>, live: Option<u32>)
    requires
        forall|s: Seq<char>| other != #[trigger] ("rsdlp_"@ + s),
    ensures
        pruning(Some("rsdlp_"@ + rest), false, live) is RemoveFile,
        pruning(Some(other), false, live) is Keep,
        pruning(None, false, live) is Keep,
        pruning(None, true, live) is Keep,
{
    law_prefix("rsdlp_"@ + rest, "rsdlp_"@, rest);
    law_prefix(other, "rsdlp_"@, rest);
    let s = other.skip("rsdlp_"@.len() as int);
    assert(other != "rsdlp_"@ + s);
}

/// A directory is removed if and only if it is that of a download, and not one of the
/// process that runs.
pub proof fn law_directories_pruned(rest: Seq<char>, other: Seq<char>, live: u32)
    requires
        forall|s: Seq<char>| other != #[trigger] ("rsdlp_job_"@ + s),
    ensures
        pruning(Some("rsdlp_job_"@ + rest), true, None) is RemoveDirectory,
        pruning(Some("rsdlp_job_"@ + decimal(live as nat) + "_"@ + rest), true, Some(live)) is Keep,
        !has_prefix("rsdlp_job_"@ + rest, "rsdlp_job_"@ + decimal(live as nat) + "_"@) ==> pruning(
            Some("rsdlp_job_"@ + rest),
            true,
            Some(live),
        ) is RemoveDirectory,
        pruning(Some(other), true, None) is Keep,
        pruning(Some(other), true, Some(live)) is Keep,
{
    law_prefix("rsdlp_job_"@ + rest, "rsdlp_job_"@, rest);
    let own = "rsdlp_job_"@ + decimal(live as nat) + "_"@;
    law_prefix(own + rest, own, rest);
    law_prefix(other, "rsdlp_job_"@, rest);
    let s = other.skip("rsdlp_job_"@.len() as int);
    assert(other != "rsdlp_job_"@ + s);
}

/// Every success counts one, and every failure nothing.
pub proof fn law_successes_counted(outcomes: Seq<bool>, outcome: bool)
    ensures
        successes(Seq::empty()) == 0,
        successes(outcomes.push(outcome)) == successes(outcomes) + (if outcome {
            1nat
        } else {
            0
        }),
{
    assert(outcomes.push(outcome).drop_last() =~= outcomes);
}

} // verus!
