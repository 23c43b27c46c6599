use vstd::prelude::*;
use crate::dispatch::StoreError;

verus! {

/// The least time between two progress lines, in milliseconds.
pub const PROGRESS_INTERVAL_MS: u64 = 200;

pub const BYTES_PER_MB: usize = 1048576;

/// The time from `from` to `now`, or zero where the clock went backwards.
pub open spec fn elapsed(from: u64, now: u64) -> u64 {
    if now >= from {
        (now - from) as u64
    } else {
        0
    }
}

fn elapsed_ms(from: u64, now: u64) -> (r: u64)
    ensures
        r == elapsed(from, now),
{
    if now >= from {
        now - from
    } else {
        0
    }
}

/// One timing entry: what was done, how many megabytes it touched, and how long it took.
pub struct TimerRecord {
    pub label: String,
    pub megabytes: usize,
    pub elapsed_ms: u64,
}

/// Collects timing entries, in the order they were added.
pub struct Timer {
    pub records: Vec<TimerRecord>,
}

impl Timer {
    pub fn new() -> (r: Timer)
        ensures
            r.records@.len() == 0,
    {
        Timer { records: Vec::new() }
    }

    pub fn add_result(&mut self, record: TimerRecord)
        ensures
            final(self).records@ == old(self).records@.push(record),
    {
        self.records.push(record);
    }
}

/// Handed out when a tracked read starts; finishing with it adds the read's one timing
/// entry to a `Timer`. It is consumed by that call, so the entry is added at most once.
pub struct CompletionToken {
    path: String,
    total_bytes: usize,
    started_at_ms: u64,
}

impl CompletionToken {
    pub closed spec fn path_spec(&self) -> Seq<char> {
        self.path@
    }

    pub closed spec fn total_bytes_spec(&self) -> usize {
        self.total_bytes
    }

    pub closed spec fn started_at_spec(&self) -> u64 {
        self.started_at_ms
    }

    /// Adds the entry `Reading <path>`, with the size in whole megabytes and the time from
    /// the start of the read to `now_ms`.
    pub fn finish(self, now_ms: u64, timer: &mut Timer)
        ensures
            final(timer).records@.len() == old(timer).records@.len() + 1,
            final(timer).records@.subrange(0, old(timer).records@.len() as int) == old(timer).records@,
            ({
                let rec = final(timer).records@.last();
                &&& rec.label@ == "Reading "@ + self.path_spec()
                &&& rec.megabytes == self.total_bytes_spec() / BYTES_PER_MB
                &&& rec.elapsed_ms == elapsed(self.started_at_spec(), now_ms)
            }),
    {
        let mut label = String::from_str("Reading ");
        label.append(self.path.as_str());
        let record = TimerRecord {
            label,
            megabytes: self.total_bytes / BYTES_PER_MB,
            elapsed_ms: elapsed_ms(self.started_at_ms, now_ms),
        };
        timer.add_result(record);
        assert(timer.records@.subrange(0, old(timer).records@.len() as int) =~= old(timer).records@);
    }
}

/// What a tracked read prints after one read call.
#[derive(Debug, PartialEq, Eq)]
pub enum ProgressReport {
    /// Nothing: too little time has passed since the last line.
    Quiet,
    /// A status line that replaces the previous one.
    Reading { processed_mb: usize, total_mb: usize, elapsed_ms: u64 },
    /// The final line, once the whole file has been read.
    Finished { total_mb: usize, elapsed_ms: u64 },
}

/// The progress of reading one file: bytes consumed against the size captured when it was
/// opened, and when it started and last printed.
pub struct ProgressState {
    path: String,
    processed_bytes: usize,
    total_bytes: usize,
    started_at_ms: u64,
    last_printed_at_ms: u64,
}

impl ProgressState {
    pub closed spec fn path_spec(&self) -> Seq<char> {
        self.path@
    }

    pub closed spec fn processed(&self) -> usize {
        self.processed_bytes
    }

    pub closed spec fn total(&self) -> usize {
        self.total_bytes
    }

    pub closed spec fn started_at(&self) -> u64 {
        self.started_at_ms
    }

    pub closed spec fn last_printed_at(&self) -> u64 {
        self.last_printed_at_ms
    }

    pub open spec fn wf(&self) -> bool {
        self.processed() <= self.total()
    }

    /// Starts tracking a read of `total_bytes` bytes from `path`, at time `now_ms`, and hands
    /// back the token that will report it.
    pub fn new(path: String, total_bytes: usize, now_ms: u64) -> (r: (ProgressState, CompletionToken))
        ensures
            r.0.wf(),
            r.0.path_spec() == path@,
            r.0.processed() == 0,
            r.0.total() == total_bytes,
            r.0.started_at() == now_ms,
            r.0.last_printed_at() == now_ms,
            r.1.path_spec() == path@,
            r.1.total_bytes_spec() == total_bytes,
            r.1.started_at_spec() == now_ms,
    {
        let token = CompletionToken { path: path.clone(), total_bytes, started_at_ms: now_ms };
        let state = ProgressState {
            path,
            processed_bytes: 0,
            total_bytes,
            started_at_ms: now_ms,
            last_printed_at_ms: now_ms,
        };
        (state, token)
    }

    pub fn path(&self) -> (r: &str)
        ensures
            r@ == self.path_spec(),
    {
        self.path.as_str()
    }

    pub fn processed_bytes(&self) -> (r: usize)
        ensures
            r == self.processed(),
    {
        self.processed_bytes
    }

    pub fn total_bytes(&self) -> (r: usize)
        ensures
            r == self.total(),
    {
        self.total_bytes
    }

    /// Accounts for one read call that returned `bytes` bytes at time `now_ms`.
    ///
    /// Reading past the size captured at the start is an overrun, which leaves the state as
    /// it was. Otherwise the bytes are counted, and a line is due when the interval has
    /// passed since the last one or when this call saw the end of the file (everything read
    /// and nothing returned); the end gives the final line.
    pub fn record_read(&mut self, bytes: usize, now_ms: u64) -> (r: Result<ProgressReport, StoreError>)
        requires
            old(self).wf(),
        ensures
            final(self).wf(),
            final(self).path_spec() == old(self).path_spec(),
            final(self).total() == old(self).total(),
            final(self).started_at() == old(self).started_at(),
            old(self).processed() + bytes > old(self).total() ==> {
                &&& *final(self) == *old(self)
                &&& r matches Err(StoreError::Overrun { path, processed, read, total })
                &&& path@ == old(self).path_spec()
                &&& processed == old(self).processed()
                &&& read == bytes
                &&& total == old(self).total()
            },
            old(self).processed() + bytes <= old(self).total() ==> {
                let done = old(self).processed() + bytes == old(self).total() && bytes == 0;
                let due = elapsed(old(self).last_printed_at(), now_ms) >= PROGRESS_INTERVAL_MS;
                let since_start = elapsed(old(self).started_at(), now_ms);
                &&& final(self).processed() == old(self).processed() + bytes
                &&& (done || due) ==> final(self).last_printed_at() == now_ms
                &&& !(done || due) ==> final(self).last_printed_at() == old(self).last_printed_at()
                &&& done ==> r == Ok::<ProgressReport, StoreError>(ProgressReport::Finished {
                    total_mb: old(self).total() / BYTES_PER_MB,
                    elapsed_ms: since_start,
                })
                &&& (!done && due) ==> r == Ok::<ProgressReport, StoreError>(ProgressReport::Reading {
                    processed_mb: final(self).processed() / BYTES_PER_MB,
                    total_mb: old(self).total() / BYTES_PER_MB,
                    elapsed_ms: since_start,
                })
                &&& !(done || due) ==> r == Ok::<ProgressReport, StoreError>(ProgressReport::Quiet)
            },
    {
        if bytes > self.total_bytes - self.processed_bytes {
            return Err(StoreError::Overrun {
                path: self.path.clone(),
                processed: self.processed_bytes,
                read: bytes,
                total: self.total_bytes,
            });
        }
        self.processed_bytes = self.processed_bytes + bytes;
        let done = self.processed_bytes == self.total_bytes && bytes == 0;
        let due = elapsed_ms(self.last_printed_at_ms, now_ms) >= PROGRESS_INTERVAL_MS;
        if !(done || due) {
            return Ok(ProgressReport::Quiet);
        }
        self.last_printed_at_ms = now_ms;
        let since_start = elapsed_ms(self.started_at_ms, now_ms);
        if done {
            Ok(ProgressReport::Finished { total_mb: self.total_bytes / BYTES_PER_MB, elapsed_ms: since_start })
        } else {
            Ok(ProgressReport::Reading {
                processed_mb: self.processed_bytes / BYTES_PER_MB,
                total_mb: self.total_bytes / BYTES_PER_MB,
                elapsed_ms: since_start,
            })
        }
    }
}

} // verus!
