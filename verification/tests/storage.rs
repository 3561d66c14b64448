use std::path::PathBuf;

use rsdlp::storage::PruneStep;
use rsdlp::storage::StagingEntry;
use rsdlp::storage::StorageManager;
use rsdlp::telegram::jobs::job_dir_name;

fn step(name: Option<&str>, is_dir: bool, live: Option<u32>) -> PruneStep {
    let entry = StagingEntry { name: name.map(String::from), is_dir };
    StorageManager::prune_stale_files(&vec![entry], live)[0]
}

#[test]
fn stale_files_are_removed() {
    assert_eq!(step(Some("rsdlp_9999_stale.tmp"), false, None), PruneStep::RemoveFile);
    assert_eq!(step(Some("rsdlp_"), false, Some(1)), PruneStep::RemoveFile);
    assert_eq!(step(Some("rsdlp"), false, None), PruneStep::Keep);
    assert_eq!(step(Some("my_rsdlp_file"), false, None), PruneStep::Keep);
    assert_eq!(step(None, false, None), PruneStep::Keep);
}

#[test]
fn directories_of_downloads_are_removed() {
    let name = job_dir_name(12, 7);
    assert_eq!(step(Some(&name), true, None), PruneStep::RemoveDirectory);
    assert_eq!(step(Some(&name), true, Some(12)), PruneStep::Keep);
    assert_eq!(step(Some(&name), true, Some(1)), PruneStep::RemoveDirectory);
    assert_eq!(step(Some(&name), true, Some(127)), PruneStep::RemoveDirectory);
    assert_eq!(step(Some("rsdlp_data"), true, None), PruneStep::Keep);
    assert_eq!(step(Some("other"), true, None), PruneStep::Keep);
}

#[test]
fn entries_keep_their_order() {
    let entry = |name: &str| StagingEntry { name: Some(name.to_string()), is_dir: false };
    assert_eq!(
        StorageManager::prune_stale_files(&vec![entry("a"), entry("rsdlp_b"), entry("c")], None),
        vec![PruneStep::Keep, PruneStep::RemoveFile, PruneStep::Keep]
    );
}

#[test]
fn a_second_pruning_finds_nothing() {
    let entry = |name: &str, is_dir: bool| StagingEntry { name: Some(name.to_string()), is_dir };
    let entries = vec![
        entry("rsdlp_1.tmp", false),
        entry("rsdlp_job_1_1", true),
        entry("rsdlp_job_2_1", true),
        entry("movie.mp4", false),
        StagingEntry { name: None, is_dir: true },
    ];
    for live in [None, Some(2)] {
        let steps = StorageManager::prune_stale_files(&entries, live);
        let left: Vec<StagingEntry> = entries
            .iter()
            .zip(steps)
            .filter(|(_, step)| *step == PruneStep::Keep)
            .map(|(entry, _)| entry.clone())
            .collect();
        assert_eq!(left.len(), if live.is_none() { 2 } else { 3 });
        for step in StorageManager::prune_stale_files(&left, live) {
            assert_eq!(step, PruneStep::Keep);
        }
    }
}

#[test]
fn removals_are_counted() {
    assert_eq!(StorageManager::count_pruned(&vec![true]), 1);
    assert_eq!(StorageManager::count_pruned(&vec![true, false, true]), 2);
    assert_eq!(StorageManager::count_pruned(&vec![]), 0);
}

#[test]
fn room_on_the_partition() {
    let manager = StorageManager::new(PathBuf::from("data/downloads"));
    assert_eq!(manager.download_dir(), &PathBuf::from("data/downloads"));
    let space = StorageManager::query_disk_space(100, 25, 4096, "data".to_string());
    assert_eq!(space.total_bytes, 409600);
    assert_eq!(space.free_bytes, 102400);
    assert_eq!(space.used_bytes, 307200);
    assert_eq!(space.staging_path, "data");
    let odd = StorageManager::query_disk_space(1, 2, 512, String::new());
    assert_eq!(odd.used_bytes, 0);
}
