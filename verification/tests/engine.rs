use fastdel::engine::DeletionEngine;
use fastdel::machine::Stage;
use fastdel::protocol::{Action, DeletionError, DirEntry, EntryMeta, Event, Report, Step};
use std::collections::{BTreeMap, BTreeSet};
use std::path::{Path, PathBuf};

/// A filesystem in memory, with failures to order.
struct MockFs {
    dirs: BTreeSet<PathBuf>,
    files: BTreeMap<PathBuf, u64>,
    locked: BTreeSet<PathBuf>,
    unlistable: BTreeSet<PathBuf>,
    unreadable: BTreeSet<PathBuf>,
    log: Vec<String>,
}

impl MockFs {
    fn new() -> MockFs {
        MockFs {
            dirs: BTreeSet::new(),
            files: BTreeMap::new(),
            locked: BTreeSet::new(),
            unlistable: BTreeSet::new(),
            unreadable: BTreeSet::new(),
            log: Vec::new(),
        }
    }

    fn dir(mut self, path: &str) -> MockFs {
        self.dirs.insert(PathBuf::from(path));
        self
    }

    fn file(mut self, path: &str, len: u64) -> MockFs {
        self.files.insert(PathBuf::from(path), len);
        self
    }

    fn locked(mut self, path: &str) -> MockFs {
        self.locked.insert(PathBuf::from(path));
        self
    }

    fn unlistable(mut self, path: &str) -> MockFs {
        self.unlistable.insert(PathBuf::from(path));
        self
    }

    fn unreadable(mut self, path: &str) -> MockFs {
        self.unreadable.insert(PathBuf::from(path));
        self
    }

    fn holds(&self, path: &str) -> bool {
        let path = PathBuf::from(path);
        self.dirs.contains(&path) || self.files.contains_key(&path)
    }

    fn stat(&self, path: &Path) -> Result<EntryMeta, String> {
        if self.unreadable.contains(path) {
            Err(String::from("permission denied"))
        } else if self.dirs.contains(path) {
            Ok(EntryMeta { is_dir: true, len: 4096 })
        } else if let Some(len) = self.files.get(path) {
            Ok(EntryMeta { is_dir: false, len: *len })
        } else {
            Err(String::from("not found"))
        }
    }

    fn children(&self, path: &Path) -> Vec<PathBuf> {
        let mut found: Vec<PathBuf> = Vec::new();
        for p in self.files.keys().chain(self.dirs.iter()) {
            if p.parent() == Some(path) {
                found.push(p.clone());
            }
        }
        found.sort();
        found
    }

    fn read_dir(&self, path: &Path) -> Result<Vec<DirEntry>, String> {
        if !self.dirs.contains(path) {
            return Err(String::from("not found"));
        }
        if self.unlistable.contains(path) {
            return Err(String::from("permission denied"));
        }
        let mut entries = Vec::new();
        for child in self.children(path) {
            let meta = self.stat(&child);
            entries.push(DirEntry { path: child, meta });
        }
        Ok(entries)
    }

    fn remove_file(&mut self, path: &Path) -> Result<(), String> {
        if self.locked.contains(path) {
            return Err(String::from("in use"));
        }
        match self.files.remove(path) {
            Some(_) => Ok(()),
            None => Err(String::from("not found")),
        }
    }

    fn remove_dir(&mut self, path: &Path) -> Result<(), String> {
        if self.locked.contains(path) {
            return Err(String::from("permission denied"));
        }
        if !self.dirs.contains(path) {
            return Err(String::from("not found"));
        }
        if !self.children(path).is_empty() {
            return Err(String::from("directory not empty"));
        }
        self.dirs.remove(path);
        Ok(())
    }

    /// Performs what the engine asks for and gives the outcome.
    fn perform(&mut self, action: &Action) -> Event {
        match action {
            Action::Stat(path) => {
                self.log.push(format!("stat {}", path.display()));
                Event::Metadata(self.stat(path))
            }
            Action::ReadDir(path) => {
                self.log.push(format!("list {}", path.display()));
                Event::Listing(self.read_dir(path))
            }
            Action::RemoveFile(path) => {
                self.log.push(format!("rm {}", path.display()));
                Event::Removed(self.remove_file(path))
            }
            Action::RemoveDir(path) => {
                self.log.push(format!("rmdir {}", path.display()));
                Event::Removed(self.remove_dir(path))
            }
            Action::Finish(_) | Action::OutOfTurn => unreachable!(),
        }
    }
}

/// Drives a whole run and gives its result with all the reports.
fn run(
    engine: &mut DeletionEngine,
    fs: &mut MockFs,
    root: &str,
) -> (Result<(), DeletionError>, Vec<Report>) {
    let mut reports = Vec::new();
    let mut action = engine.delete_directory(PathBuf::from(root));
    let mut turns = 0;
    loop {
        if let Action::Finish(result) = action {
            return (result, reports);
        }
        assert_ne!(action, Action::OutOfTurn);
        turns += 1;
        assert!(turns < 10_000);
        let event = fs.perform(&action);
        let Step { action: next, reports: mut told } = engine.step(event);
        reports.append(&mut told);
        action = next;
    }
}

fn summary(engine: &DeletionEngine) -> (u64, u64, u64, u64) {
    engine.get_stats().get_summary()
}

fn p(path: &str) -> PathBuf {
    PathBuf::from(path)
}

#[test]
fn new_engine_is_idle_with_zero_counters() {
    let engine = DeletionEngine::new(false);
    assert_eq!(engine.stage(), Stage::Idle);
    assert_eq!(summary(&engine), (0, 0, 0, 0));
    assert!(!engine.is_verbose());
    assert!(DeletionEngine::new(true).is_verbose());
}

#[test]
fn scenario_file_and_nested_file() {
    let mut fs = MockFs::new()
        .dir("/root")
        .file("/root/a.txt", 100)
        .dir("/root/sub")
        .file("/root/sub/b.txt", 50);
    let mut engine = DeletionEngine::new(false);
    let (result, reports) = run(&mut engine, &mut fs, "/root");
    assert_eq!(result, Ok(()));
    assert_eq!(summary(&engine), (2, 2, 0, 150));
    assert_eq!(engine.stage(), Stage::Completed);
    assert!(!fs.holds("/root"));
    assert!(reports.is_empty());
}

#[test]
fn scenario_locked_file_keeps_root() {
    let mut fs = MockFs::new()
        .dir("/root")
        .file("/root/locked.txt", 10)
        .file("/root/ok.txt", 20)
        .locked("/root/locked.txt");
    let mut engine = DeletionEngine::new(false);
    let (result, _) = run(&mut engine, &mut fs, "/root");
    assert_eq!(result, Ok(()));
    assert_eq!(summary(&engine), (1, 0, 2, 20));
    assert_eq!(engine.stage(), Stage::Completed);
    assert!(fs.holds("/root"));
    assert!(fs.holds("/root/locked.txt"));
    assert!(!fs.holds("/root/ok.txt"));
}

#[test]
fn scenario_empty_root() {
    let mut fs = MockFs::new().dir("/root");
    let mut engine = DeletionEngine::new(false);
    let (result, _) = run(&mut engine, &mut fs, "/root");
    assert_eq!(result, Ok(()));
    assert_eq!(summary(&engine), (0, 1, 0, 0));
    assert!(!fs.holds("/root"));
    assert_eq!(fs.log, vec!["stat /root", "list /root", "rmdir /root"]);
}

#[test]
fn clean_tree_is_removed_without_errors() {
    let mut fs = MockFs::new()
        .dir("/r")
        .file("/r/1", 1)
        .dir("/r/a")
        .dir("/r/a/b")
        .dir("/r/a/b/c")
        .file("/r/a/b/c/deep", 1000)
        .file("/r/a/2", 2)
        .dir("/r/z")
        .file("/r/z/3", 3);
    let mut engine = DeletionEngine::new(false);
    let (result, _) = run(&mut engine, &mut fs, "/r");
    assert_eq!(result, Ok(()));
    assert_eq!(summary(&engine), (4, 5, 0, 1006));
    assert!(fs.dirs.is_empty());
    assert!(fs.files.is_empty());
}

#[test]
fn operations_come_in_post_order() {
    let mut fs = MockFs::new()
        .dir("/r")
        .dir("/r/a")
        .file("/r/a/x", 1)
        .dir("/r/a/deep")
        .file("/r/a/deep/y", 1)
        .file("/r/f", 1)
        .dir("/r/b");
    let mut engine = DeletionEngine::new(false);
    let (result, _) = run(&mut engine, &mut fs, "/r");
    assert_eq!(result, Ok(()));
    assert_eq!(
        fs.log,
        vec![
            "stat /r",
            "list /r",
            "rm /r/f",
            "list /r/a",
            "rm /r/a/x",
            "list /r/a/deep",
            "rm /r/a/deep/y",
            "rmdir /r/a/deep",
            "rmdir /r/a",
            "list /r/b",
            "rmdir /r/b",
            "rmdir /r",
        ]
    );
}

#[test]
fn one_failure_among_siblings_is_contained() {
    let mut fs = MockFs::new().dir("/r");
    for i in 0..7 {
        fs = fs.file(&format!("/r/f{}", i), 10);
    }
    fs = fs.locked("/r/f3");
    let mut engine = DeletionEngine::new(false);
    let (result, _) = run(&mut engine, &mut fs, "/r");
    assert_eq!(result, Ok(()));
    let (files, dirs, errors, bytes) = summary(&engine);
    assert_eq!(files, 6);
    assert_eq!(dirs, 0);
    assert!(errors >= 1);
    assert_eq!(errors, 2);
    assert_eq!(bytes, 60);
    assert_eq!(engine.stage(), Stage::Completed);
}

#[test]
fn bytes_are_counted_at_every_depth() {
    let mut fs = MockFs::new()
        .dir("/r")
        .file("/r/a", 1)
        .dir("/r/d1")
        .file("/r/d1/b", 20)
        .file("/r/d1/stuck", 7000)
        .dir("/r/d1/d2")
        .file("/r/d1/d2/c", 300)
        .locked("/r/d1/stuck");
    let mut engine = DeletionEngine::new(false);
    let (result, _) = run(&mut engine, &mut fs, "/r");
    assert_eq!(result, Ok(()));
    // the stuck file, and the two directories above it that are not empty
    assert_eq!(summary(&engine), (3, 1, 3, 321));
}

#[test]
fn regular_file_is_an_invalid_target() {
    let mut fs = MockFs::new().dir("/r").file("/r/file.txt", 5);
    let mut engine = DeletionEngine::new(true);
    let (result, reports) = run(&mut engine, &mut fs, "/r/file.txt");
    assert_eq!(result, Err(DeletionError::InvalidTarget { path: p("/r/file.txt") }));
    assert_eq!(summary(&engine), (0, 0, 0, 0));
    assert_eq!(engine.stage(), Stage::Failed);
    assert!(reports.is_empty());
    assert!(fs.holds("/r/file.txt"));
    assert_eq!(fs.log, vec!["stat /r/file.txt"]);
}

#[test]
fn missing_root_is_an_access_error() {
    let mut fs = MockFs::new();
    let mut engine = DeletionEngine::new(false);
    let (result, _) = run(&mut engine, &mut fs, "/nowhere");
    assert_eq!(
        result,
        Err(DeletionError::Access { path: p("/nowhere"), cause: String::from("not found") })
    );
    assert_eq!(summary(&engine), (0, 0, 0, 0));
    assert_eq!(engine.stage(), Stage::Failed);
}

#[test]
fn failed_listing_counts_once_and_run_goes_on() {
    let mut fs = MockFs::new()
        .dir("/r")
        .dir("/r/closed")
        .file("/r/closed/hidden", 9)
        .dir("/r/open")
        .file("/r/open/f", 4)
        .unlistable("/r/closed");
    let mut engine = DeletionEngine::new(false);
    let (result, _) = run(&mut engine, &mut fs, "/r");
    assert_eq!(result, Ok(()));
    // the listing, the removal of the directory that is not empty, the root
    assert_eq!(summary(&engine), (1, 1, 3, 4));
    assert!(fs.holds("/r/closed/hidden"));
    assert!(!fs.holds("/r/open"));
}

#[test]
fn failed_listing_of_root_still_tries_to_remove_it() {
    let mut fs = MockFs::new().dir("/r").unlistable("/r");
    let mut engine = DeletionEngine::new(false);
    let (result, _) = run(&mut engine, &mut fs, "/r");
    assert_eq!(result, Ok(()));
    assert_eq!(summary(&engine), (0, 1, 1, 0));
    assert_eq!(fs.log, vec!["stat /r", "list /r", "rmdir /r"]);
}

#[test]
fn unreadable_child_is_counted_and_skipped() {
    let mut fs = MockFs::new()
        .dir("/r")
        .file("/r/a", 1)
        .file("/r/b", 2)
        .file("/r/c", 4)
        .unreadable("/r/b");
    let mut engine = DeletionEngine::new(false);
    let (result, _) = run(&mut engine, &mut fs, "/r");
    assert_eq!(result, Ok(()));
    assert_eq!(summary(&engine), (2, 0, 2, 5));
    assert!(fs.holds("/r/b"));
    assert_eq!(fs.log, vec!["stat /r", "list /r", "rm /r/a", "rm /r/c", "rmdir /r"]);
}

#[test]
fn files_go_before_subdirectories() {
    let mut fs = MockFs::new().dir("/r").dir("/r/a").file("/r/a/x", 1).file("/r/b", 1);
    let mut engine = DeletionEngine::new(false);
    run(&mut engine, &mut fs, "/r").0.unwrap();
    assert_eq!(
        fs.log,
        vec!["stat /r", "list /r", "rm /r/b", "list /r/a", "rm /r/a/x", "rmdir /r/a", "rmdir /r"]
    );
}

#[test]
fn verbose_engine_reports_each_step() {
    let mut fs = MockFs::new()
        .dir("/r")
        .file("/r/a", 1)
        .file("/r/k", 1)
        .file("/r/u", 1)
        .dir("/r/s")
        .dir("/r/t")
        .locked("/r/k")
        .unreadable("/r/u")
        .unlistable("/r/t");
    let mut engine = DeletionEngine::new(true);
    let (result, reports) = run(&mut engine, &mut fs, "/r");
    assert_eq!(result, Ok(()));
    assert_eq!(
        reports,
        vec![
            Report::Started { path: p("/r") },
            Report::MetadataFailed { path: p("/r/u"), cause: String::from("permission denied") },
            Report::FileDeleted { path: p("/r/a") },
            Report::FileFailed { path: p("/r/k"), cause: String::from("in use") },
            Report::DirDeleted { path: p("/r/s") },
            Report::ListFailed { path: p("/r/t"), cause: String::from("permission denied") },
            Report::DirDeleted { path: p("/r/t") },
            Report::DirFailed { path: p("/r"), cause: String::from("directory not empty") },
        ]
    );
    assert_eq!(summary(&engine), (1, 2, 4, 1));
}

#[test]
fn quiet_engine_reports_nothing() {
    let mut fs = MockFs::new().dir("/r").file("/r/a", 1).file("/r/k", 1).locked("/r/k");
    let mut engine = DeletionEngine::new(false);
    let (_, reports) = run(&mut engine, &mut fs, "/r");
    assert!(reports.is_empty());
    assert_eq!(summary(&engine), (1, 0, 2, 1));
}

#[test]
fn stages_follow_the_run() {
    let mut engine = DeletionEngine::new(false);
    assert_eq!(engine.stage(), Stage::Idle);
    assert_eq!(engine.delete_directory(p("/r")), Action::Stat(p("/r")));
    assert_eq!(engine.stage(), Stage::Validating);

    let step = engine.step(Event::Metadata(Ok(EntryMeta { is_dir: true, len: 0 })));
    assert_eq!(step.action, Action::ReadDir(p("/r")));
    assert_eq!(engine.stage(), Stage::Traversing);

    let listing = vec![
        DirEntry { path: p("/r/d"), meta: Ok(EntryMeta { is_dir: true, len: 0 }) },
        DirEntry { path: p("/r/f"), meta: Ok(EntryMeta { is_dir: false, len: 8 }) },
    ];
    let step = engine.step(Event::Listing(Ok(listing)));
    assert_eq!(step.action, Action::RemoveFile(p("/r/f")));
    assert_eq!(engine.stage(), Stage::Traversing);

    let step = engine.step(Event::Removed(Ok(())));
    assert_eq!(step.action, Action::ReadDir(p("/r/d")));
    assert_eq!(engine.stage(), Stage::Traversing);

    let step = engine.step(Event::Listing(Ok(Vec::new())));
    assert_eq!(step.action, Action::RemoveDir(p("/r/d")));
    assert_eq!(engine.stage(), Stage::Traversing);

    let step = engine.step(Event::Removed(Ok(())));
    assert_eq!(step.action, Action::RemoveDir(p("/r")));
    assert_eq!(engine.stage(), Stage::RemovingRoot);

    let step = engine.step(Event::Removed(Ok(())));
    assert_eq!(step.action, Action::Finish(Ok(())));
    assert_eq!(engine.stage(), Stage::Completed);
    assert_eq!(summary(&engine), (1, 2, 0, 8));
}

#[test]
fn events_out_of_turn_change_nothing() {
    let mut engine = DeletionEngine::new(true);
    // no run has begun
    for event in [
        Event::Metadata(Ok(EntryMeta { is_dir: true, len: 0 })),
        Event::Listing(Ok(Vec::new())),
        Event::Removed(Ok(())),
    ] {
        let step = engine.step(event);
        assert_eq!(step.action, Action::OutOfTurn);
        assert!(step.reports.is_empty());
        assert_eq!(engine.stage(), Stage::Idle);
    }
    engine.delete_directory(p("/r"));
    assert_eq!(engine.step(Event::Removed(Err(String::from("x")))).action, Action::OutOfTurn);
    assert_eq!(engine.step(Event::Listing(Err(String::from("x")))).action, Action::OutOfTurn);
    assert_eq!(engine.stage(), Stage::Validating);
    assert_eq!(summary(&engine), (0, 0, 0, 0));

    // a second run while the first is under way
    assert_eq!(engine.delete_directory(p("/other")), Action::OutOfTurn);
    let step = engine.step(Event::Metadata(Ok(EntryMeta { is_dir: true, len: 0 })));
    assert_eq!(step.action, Action::ReadDir(p("/r")));
    assert_eq!(engine.step(Event::Removed(Ok(()))).action, Action::OutOfTurn);
    assert_eq!(
        engine.step(Event::Metadata(Ok(EntryMeta { is_dir: true, len: 0 }))).action,
        Action::OutOfTurn
    );
    let step = engine.step(Event::Listing(Ok(Vec::new())));
    assert_eq!(step.action, Action::RemoveDir(p("/r")));
    assert_eq!(engine.step(Event::Listing(Ok(Vec::new()))).action, Action::OutOfTurn);
    assert_eq!(engine.step(Event::Removed(Ok(()))).action, Action::Finish(Ok(())));
    assert_eq!(engine.step(Event::Removed(Ok(()))).action, Action::OutOfTurn);
    assert_eq!(summary(&engine), (0, 1, 0, 0));
}

#[test]
fn engine_can_run_again_and_counts_on() {
    let mut engine = DeletionEngine::new(false);
    let mut fs = MockFs::new().dir("/a").file("/a/x", 5).dir("/b").file("/b/y", 6);
    run(&mut engine, &mut fs, "/a").0.unwrap();
    assert_eq!(summary(&engine), (1, 1, 0, 5));
    run(&mut engine, &mut fs, "/b").0.unwrap();
    assert_eq!(summary(&engine), (2, 2, 0, 11));
    let (result, _) = run(&mut engine, &mut fs, "/a");
    assert!(matches!(result, Err(DeletionError::Access { .. })));
    assert_eq!(engine.stage(), Stage::Failed);
    assert_eq!(summary(&engine), (2, 2, 0, 11));
    run(&mut engine, &mut fs, "/").0.unwrap_err();
}

#[test]
fn directory_length_is_not_counted_as_bytes() {
    let mut engine = DeletionEngine::new(false);
    engine.delete_directory(p("/r"));
    engine.step(Event::Metadata(Ok(EntryMeta { is_dir: true, len: 4096 })));
    let listing = vec![DirEntry { path: p("/r/d"), meta: Ok(EntryMeta { is_dir: true, len: 512 }) }];
    engine.step(Event::Listing(Ok(listing)));
    engine.step(Event::Listing(Ok(Vec::new())));
    engine.step(Event::Removed(Ok(())));
    let step = engine.step(Event::Removed(Ok(())));
    assert_eq!(step.action, Action::Finish(Ok(())));
    assert_eq!(summary(&engine), (0, 2, 0, 0));
}

#[test]
fn many_files_in_one_directory() {
    let mut fs = MockFs::new().dir("/r");
    let mut total = 0;
    for i in 0..500u64 {
        fs = fs.file(&format!("/r/f{:04}", i), i);
        total += i;
    }
    let mut engine = DeletionEngine::new(false);
    run(&mut engine, &mut fs, "/r").0.unwrap();
    assert_eq!(summary(&engine), (500, 1, 0, total));
}

#[test]
fn deep_nesting_is_walked_without_recursion_limits() {
    let mut fs = MockFs::new();
    let mut path = String::from("/r");
    fs = fs.dir(&path);
    for i in 0..200 {
        path = format!("{}/d{}", path, i);
        fs = fs.dir(&path);
    }
    fs = fs.file(&format!("{}/leaf", path), 42);
    let mut engine = DeletionEngine::new(false);
    run(&mut engine, &mut fs, "/r").0.unwrap();
    assert_eq!(summary(&engine), (1, 201, 0, 42));
    assert!(fs.dirs.is_empty());
}
