//! How much an attachment has been sent.

use vstd::prelude::*;
use crate::server::packets::NANOS_PER_SEC;

verus! {

/// More than so many whole seconds lie between two reports.
pub const REPORT_PERIOD: u64 = 5;

/// Times are nanoseconds on the caller's clock.
#[derive(Debug, Clone, Copy, PartialEq, Eq, Structural)]
pub struct AttachmentStats {
    pub start: u64,
    pub total_transfer: u64,
    pub last_log: u64,
}

/// What is reported of a transfer: how long it has taken, and how many bytes
/// were sent.
#[derive(Debug, Clone, Copy, PartialEq, Eq, Structural)]
pub struct TransferReport {
    pub duration: u64,
    pub total_transfer: u64,
}

impl AttachmentStats {
    pub fn new(now: u64) -> (stats: AttachmentStats)
        ensures
            stats == (AttachmentStats { start: now, total_transfer: 0, last_log: now }),
    {
        AttachmentStats { start: now, total_transfer: 0, last_log: now }
    }

    /// Time only passes.
    pub open spec fn wf(self) -> bool {
        self.start <= self.last_log
    }

    /// A report is due.
    pub open spec fn report_due(self, now: u64) -> bool {
        (now - self.last_log) / NANOS_PER_SEC as int > REPORT_PERIOD
    }

    /// What was sent so far with one more frame, and the report of it, if one is
    /// due.
    pub open spec fn recorded(self, len: usize, now: u64) -> (
        AttachmentStats,
        Option<TransferReport>,
    ) {
        let total_transfer = (self.total_transfer + len) as u64;
        if self.report_due(now) {
            (
                AttachmentStats { start: self.start, total_transfer, last_log: now },
                Some(TransferReport { duration: (now - self.start) as u64, total_transfer }),
            )
        } else {
            (AttachmentStats { total_transfer, ..self }, None)
        }
    }

    /// Counts a frame. Returns a report, if one is due.
    pub fn record_frame(&mut self, len: usize, now: u64) -> (report: Option<TransferReport>)
        requires
            old(self).wf(),
            old(self).last_log <= now,
            old(self).total_transfer + len <= u64::MAX,
        ensures
            final(self).wf(),
            (*final(self), report) == old(self).recorded(len, now),
    {
        self.total_transfer = self.total_transfer + len as u64;
        if (now - self.last_log) / NANOS_PER_SEC > REPORT_PERIOD {
            self.last_log = now;
            Some(
                TransferReport {
                    duration: now - self.start,
                    total_transfer: self.total_transfer,
                },
            )
        } else {
            None
        }
    }
}

/// Every byte is counted once. A report is made once six whole seconds have
/// passed since the last, and tells of everything since the start.
pub proof fn reports_tell_everything(stats: AttachmentStats, len: usize, now: u64, later: u64)
    requires
        stats.wf(),
        stats.last_log <= now <= later,
        stats.total_transfer + len <= u64::MAX,
    ensures
        ({
            let (after, report) = stats.recorded(len, now);
            &&& after.total_transfer - stats.total_transfer == len
            &&& after.start == stats.start
            &&& report is Some <==> now - stats.last_log >= 6_000_000_000
            &&& report matches Some(r) ==> r.total_transfer == after.total_transfer && r.duration
                == now - stats.start && after.last_log == now
            &&& report is None ==> after.last_log == stats.last_log
            &&& report is Some && later - now < 6_000_000_000 ==> after.recorded(0, later).1 is None
        }),
{
}

} // verus!
