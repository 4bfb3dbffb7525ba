//! Progress reports as exact fractions.
//!
//! A report stands for the percentage `done / total * 100`. It is kept as the
//! two integers so that ordering and bounds can be stated exactly; the host
//! turns it into a floating-point percentage when it emits the event.

use vstd::prelude::*;

verus! {

/// The operation a progress report belongs to.
#[derive(Clone, Copy, Debug, PartialEq, Eq, Structural)]
pub enum ProgressKind {
    Download,
    Extract,
}

/// `done` parts out of `total`, reported for one operation.
#[derive(Clone, Copy, Debug, PartialEq, Eq, Structural)]
pub struct Progress {
    pub kind: ProgressKind,
    pub done: u64,
    pub total: u64,
}

impl Progress {
    /// The percentage of `self` is at most the percentage of `later`
    /// (`a/b <= c/d` for positive `b`, `d`, stated without division).
    pub open spec fn at_most(self, later: Progress) -> bool {
        self.done * later.total <= later.done * self.total
    }

    /// The percentage lies in the closed range from 0 to 100.
    pub open spec fn in_range(self) -> bool {
        self.done <= self.total
    }

    /// The percentage is strictly below 100.
    pub open spec fn below_full(self) -> bool {
        self.done < self.total
    }
}

/// Name of the event channel on which reports of `kind` are emitted.
pub fn channel_name(kind: ProgressKind) -> (name: &'static str)
    ensures
        kind == ProgressKind::Download ==> name@ == "download-progress"@,
        kind == ProgressKind::Extract ==> name@ == "unzip-progress"@,
{
    match kind {
        ProgressKind::Download => "download-progress",
        ProgressKind::Extract => "unzip-progress",
    }
}

/// The report after `downloaded` bytes of a body whose declared length is
/// `total`; there is none when no positive length was declared.
pub open spec fn download_report(downloaded: u64, total: u64) -> Option<Progress> {
    if total > 0 {
        Some(Progress { kind: ProgressKind::Download, done: downloaded, total })
    } else {
        None
    }
}

/// The report for entry `index` of an archive with `count` entries, made
/// from the index of the entry itself: the first entry reports zero and the
/// last one stays below one hundred percent.
pub open spec fn extract_report(index: u64, count: u64) -> Option<Progress> {
    if count > 0 {
        Some(Progress { kind: ProgressKind::Extract, done: index, total: count })
    } else {
        None
    }
}

impl Progress {
    /// Computes [`download_report`].
    pub fn download(downloaded: u64, total: u64) -> (report: Option<Progress>)
        ensures
            report == download_report(downloaded, total),
    {
        if total > 0 {
            Some(Progress { kind: ProgressKind::Download, done: downloaded, total })
        } else {
            None
        }
    }

    /// Computes [`extract_report`].
    pub fn extract(index: u64, count: u64) -> (report: Option<Progress>)
        ensures
            report == extract_report(index, count),
    {
        if count > 0 {
            Some(Progress { kind: ProgressKind::Extract, done: index, total: count })
        } else {
            None
        }
    }
}

} // verus!
