//! The counters of one deletion run.
use vstd::prelude::*;

verus! {

/// Counters of a deletion run: files removed, directories removed, failures
/// met, and bytes freed. No operation takes anything off a counter; a
/// counter that is full wraps around to zero.
#[derive(Clone, Copy, Debug, PartialEq, Eq)]
pub struct DeletionStats {
    pub files_deleted: u64,
    pub dirs_deleted: u64,
    pub errors_encountered: u64,
    pub bytes_freed: u64,
}

/// `n` reduced into the range of a `u64` counter.
pub open spec fn wrap(n: int) -> u64 {
    (n % 0x1_0000_0000_0000_0000) as u64
}

/// What a run, or a part of one, adds to the four counters, as unbounded
/// numbers.
pub struct Tally {
    pub files: nat,
    pub dirs: nat,
    pub errors: nat,
    pub bytes: nat,
}

impl Tally {
    /// Nothing counted.
    pub open spec fn zero() -> Tally {
        Tally { files: 0, dirs: 0, errors: 0, bytes: 0 }
    }

    /// `n` removed files.
    pub open spec fn files(n: nat) -> Tally {
        Tally { files: n, dirs: 0, errors: 0, bytes: 0 }
    }

    /// `n` removed directories.
    pub open spec fn dirs(n: nat) -> Tally {
        Tally { files: 0, dirs: n, errors: 0, bytes: 0 }
    }

    /// `n` failures.
    pub open spec fn failures(n: nat) -> Tally {
        Tally { files: 0, dirs: 0, errors: n, bytes: 0 }
    }

    /// `n` bytes freed.
    pub open spec fn bytes(n: nat) -> Tally {
        Tally { files: 0, dirs: 0, errors: 0, bytes: n }
    }

    /// One removed file of `len` bytes.
    pub open spec fn file(len: nat) -> Tally {
        Tally { files: 1, dirs: 0, errors: 0, bytes: len }
    }

    /// The sum of two tallies, counter by counter.
    pub open spec fn plus(self, other: Tally) -> Tally {
        Tally {
            files: self.files + other.files,
            dirs: self.dirs + other.dirs,
            errors: self.errors + other.errors,
            bytes: self.bytes + other.bytes,
        }
    }
}

impl DeletionStats {
    /// The counters as a tuple `(files, dirs, errors, bytes)`.
    pub open spec fn summary(&self) -> (u64, u64, u64, u64) {
        (self.files_deleted, self.dirs_deleted, self.errors_encountered, self.bytes_freed)
    }

    /// All four counters at zero.
    pub open spec fn zero() -> DeletionStats {
        DeletionStats { files_deleted: 0, dirs_deleted: 0, errors_encountered: 0, bytes_freed: 0 }
    }

    /// The counters after `tally` was added to them.
    pub open spec fn plus(self, tally: Tally) -> DeletionStats {
        DeletionStats {
            files_deleted: wrap(self.files_deleted + tally.files),
            dirs_deleted: wrap(self.dirs_deleted + tally.dirs),
            errors_encountered: wrap(self.errors_encountered + tally.errors),
            bytes_freed: wrap(self.bytes_freed + tally.bytes),
        }
    }

    /// Fresh counters, all zero.
    pub fn new() -> (stats: DeletionStats)
        ensures
            stats == DeletionStats::zero(),
    {
        DeletionStats { files_deleted: 0, dirs_deleted: 0, errors_encountered: 0, bytes_freed: 0 }
    }

    /// Counts one removed file.
    pub fn increment_files(&mut self)
        ensures
            *final(self) == old(self).plus(Tally::files(1)),
    {
        self.files_deleted = self.files_deleted.wrapping_add(1);
    }

    /// Counts one removed directory.
    pub fn increment_dirs(&mut self)
        ensures
            *final(self) == old(self).plus(Tally::dirs(1)),
    {
        self.dirs_deleted = self.dirs_deleted.wrapping_add(1);
    }

    /// Counts one failure.
    pub fn increment_errors(&mut self)
        ensures
            *final(self) == old(self).plus(Tally::failures(1)),
    {
        self.errors_encountered = self.errors_encountered.wrapping_add(1);
    }

    /// Adds `bytes` to the bytes freed.
    pub fn add_bytes(&mut self, bytes: u64)
        ensures
            *final(self) == old(self).plus(Tally::bytes(bytes as nat)),
    {
        self.bytes_freed = self.bytes_freed.wrapping_add(bytes);
    }

    /// The four counters: files removed, directories removed, failures, bytes
    /// freed.
    pub fn get_summary(&self) -> (summary: (u64, u64, u64, u64))
        ensures
            summary == self.summary(),
    {
        (self.files_deleted, self.dirs_deleted, self.errors_encountered, self.bytes_freed)
    }
}

/// Adding to a counter in two goes is adding the sum, wrapping or not.
pub proof fn lemma_wrap_twice(start: u64, a: nat, b: nat)
    ensures
        wrap(wrap(start + a) + b) == wrap(start + a + b),
{
    let m = 0x1_0000_0000_0000_0000;
    vstd::arithmetic::div_mod::lemma_add_mod_noop(start + a, b as int, m);
    vstd::arithmetic::div_mod::lemma_small_mod(wrap(start + a) as nat, m as nat);
    vstd::arithmetic::div_mod::lemma_mod_twice(start + a, m);
}

/// Adding two tallies one after the other is adding their sum.
pub proof fn lemma_plus_twice(stats: DeletionStats, a: Tally, b: Tally)
    ensures
        stats.plus(a).plus(b) == stats.plus(a.plus(b)),
{
    lemma_wrap_twice(stats.files_deleted, a.files, b.files);
    lemma_wrap_twice(stats.dirs_deleted, a.dirs, b.dirs);
    lemma_wrap_twice(stats.errors_encountered, a.errors, b.errors);
    lemma_wrap_twice(stats.bytes_freed, a.bytes, b.bytes);
}

/// Adding nothing changes nothing.
pub proof fn lemma_plus_zero(stats: DeletionStats)
    ensures
        stats.plus(Tally::zero()) == stats,
{
}

/// Counters that stay within `u64` hold the exact counts: nothing wraps.
pub proof fn lemma_plus_exact(stats: DeletionStats, tally: Tally)
    requires
        stats.files_deleted + tally.files <= u64::MAX,
        stats.dirs_deleted + tally.dirs <= u64::MAX,
        stats.errors_encountered + tally.errors <= u64::MAX,
        stats.bytes_freed + tally.bytes <= u64::MAX,
    ensures
        stats.plus(tally).files_deleted == stats.files_deleted + tally.files,
        stats.plus(tally).dirs_deleted == stats.dirs_deleted + tally.dirs,
        stats.plus(tally).errors_encountered == stats.errors_encountered + tally.errors,
        stats.plus(tally).bytes_freed == stats.bytes_freed + tally.bytes,
{
}

} // verus!
