use fastdel::stats::DeletionStats;

#[test]
fn new_stats_are_zero() {
    let stats = DeletionStats::new();
    assert_eq!(stats.get_summary(), (0, 0, 0, 0));
}

#[test]
fn each_counter_moves_alone() {
    let mut stats = DeletionStats::new();
    stats.increment_files();
    assert_eq!(stats.get_summary(), (1, 0, 0, 0));
    stats.increment_dirs();
    stats.increment_dirs();
    assert_eq!(stats.get_summary(), (1, 2, 0, 0));
    stats.increment_errors();
    stats.increment_errors();
    stats.increment_errors();
    assert_eq!(stats.get_summary(), (1, 2, 3, 0));
    stats.add_bytes(4096);
    stats.add_bytes(4);
    assert_eq!(stats.get_summary(), (1, 2, 3, 4100));
    stats.add_bytes(0);
    assert_eq!(stats.get_summary(), (1, 2, 3, 4100));
}

#[test]
fn summary_is_in_the_order_files_dirs_errors_bytes() {
    let stats = DeletionStats {
        files_deleted: 11,
        dirs_deleted: 22,
        errors_encountered: 33,
        bytes_freed: 44,
    };
    assert_eq!(stats.get_summary(), (11, 22, 33, 44));
}

#[test]
fn counters_wrap_around() {
    let mut stats = DeletionStats {
        files_deleted: u64::MAX,
        dirs_deleted: u64::MAX,
        errors_encountered: u64::MAX,
        bytes_freed: u64::MAX - 1,
    };
    stats.increment_files();
    stats.increment_dirs();
    stats.increment_errors();
    stats.add_bytes(5);
    assert_eq!(stats.get_summary(), (0, 0, 0, 3));
}
