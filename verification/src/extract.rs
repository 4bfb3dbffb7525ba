//! Extraction of an archive into a target directory that is replaced as a
//! whole.
//!
//! An [`Extraction`] is the state of one run. It names the action that the
//! host has to perform next ([`Extraction::pending`]); [`unzip_file`] takes the
//! outcome of that action and moves on. The order is fixed: the archive file
//! is opened, a target directory that exists is removed, the target is created
//! empty, the archive is loaded, and its entries are written in index order.
//! The first failure ends the run; nothing is rolled back.

use crate::archive::ArchiveEntry;
use crate::failure::{Failure, Stage};
use crate::progress::{extract_report, Progress};
use vstd::prelude::*;

verus! {

/// What the host is asked to do next.
#[derive(Debug, PartialEq, Eq)]
pub enum ExtractAction {
    /// Open the archive file for reading.
    OpenArchive,
    /// Find out whether the target directory exists.
    ProbeTarget,
    /// Remove the target directory with everything below it.
    RemoveTarget,
    /// Create the target directory, and its ancestors where they are missing.
    CreateTarget,
    /// Read the opened archive and hand over its entries.
    LoadArchive,
    /// Create the directory of entry `entry` and its missing ancestors.
    CreateDirectory { entry: usize },
    /// Find out whether the parent directory of entry `entry` exists. A path
    /// without a parent has nothing to create and counts as present.
    ProbeParent { entry: usize },
    /// Create the parent directory of entry `entry` and its missing ancestors.
    CreateParent { entry: usize },
    /// Create the output file of entry `entry`, empty.
    CreateFile { entry: usize },
    /// Write the bytes of entry `entry`, as the archive holds them, into its
    /// output file.
    WriteContent { entry: usize },
    /// Nothing more: the run has ended with `outcome`.
    Finish { outcome: Result<(), Failure> },
}

/// The outcome of the action that was pending.
#[derive(Debug, PartialEq, Eq)]
pub enum ExtractReply {
    /// The action was performed.
    Done,
    /// The probed directory exists.
    Present,
    /// The probed directory does not exist.
    Absent,
    /// The archive was read; these are its entries in index order.
    Loaded { entries: Vec<ArchiveEntry> },
    /// The action failed for the given reason.
    Failed { cause: String },
}

/// The state of one extraction.
#[derive(Debug, PartialEq, Eq)]
pub struct Extraction {
    /// The action whose outcome is awaited.
    pub pending: ExtractAction,
    /// The entries of the archive, once it is loaded.
    pub entries: Vec<ArchiveEntry>,
}

/// The action that handles the first entry at or after `from` that is not
/// skipped: rejected entries are passed over, an unreadable entry ends the
/// run, and past the last entry the run ends in success.
pub open spec fn settle(entries: Seq<ArchiveEntry>, from: int) -> ExtractAction
    decreases entries.len() - from,
{
    if from < 0 || from >= entries.len() {
        ExtractAction::Finish { outcome: Ok(()) }
    } else {
        match entries[from] {
            ArchiveEntry::Rejected => settle(entries, from + 1),
            ArchiveEntry::Unreadable { cause } => ExtractAction::Finish {
                outcome: Err(Failure { stage: Stage::ReadEntry, cause }),
            },
            ArchiveEntry::Directory { .. } => ExtractAction::CreateDirectory { entry: from as usize },
            ArchiveEntry::File { .. } => ExtractAction::ProbeParent { entry: from as usize },
            ArchiveEntry::Damaged { .. } => ExtractAction::ProbeParent { entry: from as usize },
        }
    }
}

impl Extraction {
    /// A run that has not begun: the archive is to be opened, nothing is loaded.
    pub open spec fn is_initial(self) -> bool {
        self.pending == ExtractAction::OpenArchive && self.entries@.len() == 0
    }

    /// The same run, waiting for `action`.
    pub open spec fn awaiting(self, action: ExtractAction) -> Extraction {
        Extraction { pending: action, entries: self.entries }
    }

    /// The same run, ended by a failure at `stage`.
    pub open spec fn fail(self, stage: Stage, cause: String) -> Extraction {
        self.awaiting(ExtractAction::Finish { outcome: Err(Failure { stage, cause }) })
    }

    /// The state after `reply` has answered the pending action. A reply that
    /// does not answer the pending action leaves the state as it is, so the
    /// action is asked for again.
    pub open spec fn next(self, reply: ExtractReply) -> Extraction {
        match (self.pending, reply) {
            (ExtractAction::OpenArchive, ExtractReply::Done) => self.awaiting(
                ExtractAction::ProbeTarget,
            ),
            (ExtractAction::OpenArchive, ExtractReply::Failed { cause }) => self.fail(
                Stage::OpenArchive,
                cause,
            ),
            (ExtractAction::ProbeTarget, ExtractReply::Present) => self.awaiting(
                ExtractAction::RemoveTarget,
            ),
            (ExtractAction::ProbeTarget, ExtractReply::Absent) => self.awaiting(
                ExtractAction::CreateTarget,
            ),
            (ExtractAction::RemoveTarget, ExtractReply::Done) => self.awaiting(
                ExtractAction::CreateTarget,
            ),
            (ExtractAction::RemoveTarget, ExtractReply::Failed { cause }) => self.fail(
                Stage::RemoveTarget,
                cause,
            ),
            (ExtractAction::CreateTarget, ExtractReply::Done) => self.awaiting(
                ExtractAction::LoadArchive,
            ),
            (ExtractAction::CreateTarget, ExtractReply::Failed { cause }) => self.fail(
                Stage::CreateTarget,
                cause,
            ),
            (ExtractAction::LoadArchive, ExtractReply::Loaded { entries }) => Extraction {
                pending: settle(entries@, 0),
                entries,
            },
            (ExtractAction::LoadArchive, ExtractReply::Failed { cause }) => self.fail(
                Stage::ReadArchive,
                cause,
            ),
            (ExtractAction::CreateDirectory { entry }, ExtractReply::Done) => if entry
                < self.entries.len() {
                self.awaiting(settle(self.entries@, entry + 1))
            } else {
                self
            },
            (ExtractAction::CreateDirectory { .. }, ExtractReply::Failed { cause }) => self.fail(
                Stage::CreateDirectory,
                cause,
            ),
            (ExtractAction::ProbeParent { entry }, ExtractReply::Present) => self.awaiting(
                ExtractAction::CreateFile { entry },
            ),
            (ExtractAction::ProbeParent { entry }, ExtractReply::Absent) => self.awaiting(
                ExtractAction::CreateParent { entry },
            ),
            (ExtractAction::CreateParent { entry }, ExtractReply::Done) => self.awaiting(
                ExtractAction::CreateFile { entry },
            ),
            (ExtractAction::CreateParent { .. }, ExtractReply::Failed { cause }) => self.fail(
                Stage::CreateParent,
                cause,
            ),
            (ExtractAction::CreateFile { entry }, ExtractReply::Done) => if entry
                < self.entries.len() {
                match self.entries[entry as int] {
                    ArchiveEntry::File { .. } => self.awaiting(ExtractAction::WriteContent { entry }),
                    ArchiveEntry::Damaged { cause, .. } => self.fail(Stage::CopyContent, cause),
                    _ => self,
                }
            } else {
                self
            },
            (ExtractAction::CreateFile { .. }, ExtractReply::Failed { cause }) => self.fail(
                Stage::CreateFile,
                cause,
            ),
            (ExtractAction::WriteContent { entry }, ExtractReply::Done) => if entry
                < self.entries.len() {
                self.awaiting(settle(self.entries@, entry + 1))
            } else {
                self
            },
            (ExtractAction::WriteContent { .. }, ExtractReply::Failed { cause }) => self.fail(
                Stage::CopyContent,
                cause,
            ),
            _ => self,
        }
    }

    /// The progress report that goes out when `reply` answers the pending
    /// action: one for each entry that has been written, made from the
    /// entry's own index.
    pub open spec fn report(self, reply: ExtractReply) -> Option<Progress> {
        match (self.pending, reply) {
            (ExtractAction::CreateDirectory { entry }, ExtractReply::Done) => if entry
                < self.entries.len() {
                extract_report(entry as u64, self.entries.len() as u64)
            } else {
                None
            },
            (ExtractAction::WriteContent { entry }, ExtractReply::Done) => if entry
                < self.entries.len() {
                extract_report(entry as u64, self.entries.len() as u64)
            } else {
                None
            },
            _ => None,
        }
    }

    /// Begins a run.
    pub fn start() -> (session: Extraction)
        ensures
            session.is_initial(),
    {
        Extraction { pending: ExtractAction::OpenArchive, entries: Vec::new() }
    }

    /// The entry that an action refers to, if the archive holds it.
    pub fn entry(&self, index: usize) -> (entry: Option<&ArchiveEntry>)
        ensures
            match entry {
                Some(e) => index < self.entries.len() && *e == self.entries[index as int],
                None => index >= self.entries.len(),
            },
    {
        if index < self.entries.len() {
            Some(&self.entries[index])
        } else {
            None
        }
    }
}

/// Computes [`settle`].
fn settle_from(entries: &Vec<ArchiveEntry>, from: usize) -> (action: ExtractAction)
    ensures
        action == settle(entries@, from as int),
{
    let mut k: usize = from;
    while k < entries.len()
        invariant
            settle(entries@, k as int) == settle(entries@, from as int),
        decreases entries.len() - k,
    {
        match &entries[k] {
            ArchiveEntry::Rejected => {
                k = k + 1;
            },
            ArchiveEntry::Unreadable { cause } => {
                return ExtractAction::Finish {
                    outcome: Err(Failure { stage: Stage::ReadEntry, cause: cause.clone() }),
                };
            },
            ArchiveEntry::Directory { .. } => {
                return ExtractAction::CreateDirectory { entry: k };
            },
            ArchiveEntry::File { .. } => {
                return ExtractAction::ProbeParent { entry: k };
            },
            ArchiveEntry::Damaged { .. } => {
                return ExtractAction::ProbeParent { entry: k };
            },
        }
    }
    ExtractAction::Finish { outcome: Ok(()) }
}

fn failed(stage: Stage, cause: String) -> (action: ExtractAction)
    ensures
        action == (ExtractAction::Finish { outcome: Err(Failure { stage, cause }) }),
{
    ExtractAction::Finish { outcome: Err(Failure { stage, cause }) }
}

/// Moves an extraction on by one reply: returns the state after `reply` has
/// answered the pending action, with the progress report to emit, if any.
pub fn unzip_file(session: Extraction, reply: ExtractReply) -> (r: (Extraction, Option<Progress>))
    ensures
        r.0 == session.next(reply),
        r.1 == session.report(reply),
{
    let Extraction { pending, entries } = session;
    let count: usize = entries.len();
    match (pending, reply) {
        (ExtractAction::OpenArchive, ExtractReply::Done) => (
            Extraction { pending: ExtractAction::ProbeTarget, entries },
            None,
        ),
        (ExtractAction::OpenArchive, ExtractReply::Failed { cause }) => (
            Extraction { pending: failed(Stage::OpenArchive, cause), entries },
            None,
        ),
        (ExtractAction::ProbeTarget, ExtractReply::Present) => (
            Extraction { pending: ExtractAction::RemoveTarget, entries },
            None,
        ),
        (ExtractAction::ProbeTarget, ExtractReply::Absent) => (
            Extraction { pending: ExtractAction::CreateTarget, entries },
            None,
        ),
        (ExtractAction::RemoveTarget, ExtractReply::Done) => (
            Extraction { pending: ExtractAction::CreateTarget, entries },
            None,
        ),
        (ExtractAction::RemoveTarget, ExtractReply::Failed { cause }) => (
            Extraction { pending: failed(Stage::RemoveTarget, cause), entries },
            None,
        ),
        (ExtractAction::CreateTarget, ExtractReply::Done) => (
            Extraction { pending: ExtractAction::LoadArchive, entries },
            None,
        ),
        (ExtractAction::CreateTarget, ExtractReply::Failed { cause }) => (
            Extraction { pending: failed(Stage::CreateTarget, cause), entries },
            None,
        ),
        (ExtractAction::LoadArchive, ExtractReply::Loaded { entries: loaded }) => {
            let first = settle_from(&loaded, 0);
            (Extraction { pending: first, entries: loaded }, None)
        },
        (ExtractAction::LoadArchive, ExtractReply::Failed { cause }) => (
            Extraction { pending: failed(Stage::ReadArchive, cause), entries },
            None,
        ),
        (ExtractAction::CreateDirectory { entry }, ExtractReply::Done) => {
            if entry < count {
                let following = settle_from(&entries, entry + 1);
                (
                    Extraction { pending: following, entries },
                    Progress::extract(entry as u64, count as u64),
                )
            } else {
                (Extraction { pending: ExtractAction::CreateDirectory { entry }, entries }, None)
            }
        },
        (ExtractAction::CreateDirectory { .. }, ExtractReply::Failed { cause }) => (
            Extraction { pending: failed(Stage::CreateDirectory, cause), entries },
            None,
        ),
        (ExtractAction::ProbeParent { entry }, ExtractReply::Present) => (
            Extraction { pending: ExtractAction::CreateFile { entry }, entries },
            None,
        ),
        (ExtractAction::ProbeParent { entry }, ExtractReply::Absent) => (
            Extraction { pending: ExtractAction::CreateParent { entry }, entries },
            None,
        ),
        (ExtractAction::CreateParent { entry }, ExtractReply::Done) => (
            Extraction { pending: ExtractAction::CreateFile { entry }, entries },
            None,
        ),
        (ExtractAction::CreateParent { .. }, ExtractReply::Failed { cause }) => (
            Extraction { pending: failed(Stage::CreateParent, cause), entries },
            None,
        ),
        (ExtractAction::CreateFile { entry }, ExtractReply::Done) => {
            let following = if entry < count {
                match &entries[entry] {
                    ArchiveEntry::File { .. } => ExtractAction::WriteContent { entry },
                    ArchiveEntry::Damaged { cause, .. } => failed(Stage::CopyContent, cause.clone()),
                    _ => ExtractAction::CreateFile { entry },
                }
            } else {
                ExtractAction::CreateFile { entry }
            };
            (Extraction { pending: following, entries }, None)
        },
        (ExtractAction::CreateFile { .. }, ExtractReply::Failed { cause }) => (
            Extraction { pending: failed(Stage::CreateFile, cause), entries },
            None,
        ),
        (ExtractAction::WriteContent { entry }, ExtractReply::Done) => {
            if entry < count {
                let following = settle_from(&entries, entry + 1);
                (
                    Extraction { pending: following, entries },
                    Progress::extract(entry as u64, count as u64),
                )
            } else {
                (Extraction { pending: ExtractAction::WriteContent { entry }, entries }, None)
            }
        },
        (ExtractAction::WriteContent { .. }, ExtractReply::Failed { cause }) => (
            Extraction { pending: failed(Stage::CopyContent, cause), entries },
            None,
        ),
        (pending, _) => (Extraction { pending, entries }, None),
    }
}

/// The state after the replies of a run have answered, in order, the actions
/// that were pending in turn.
pub open spec fn after(start: Extraction, replies: Seq<ExtractReply>) -> Extraction
    decreases replies.len(),
{
    if replies.len() == 0 {
        start
    } else {
        after(start, replies.drop_last()).next(replies.last())
    }
}

/// The action that reply `i` of a run answers.
pub open spec fn asked(start: Extraction, replies: Seq<ExtractReply>, i: int) -> ExtractAction {
    after(start, replies.take(i)).pending
}

/// Somewhere in the run `action` was pending and was answered with `reply`.
pub open spec fn answered(
    start: Extraction,
    replies: Seq<ExtractReply>,
    action: ExtractAction,
    reply: ExtractReply,
) -> bool {
    exists|i: int|
        0 <= i < replies.len() && #[trigger] asked(start, replies, i) == action && replies[i]
            == reply
}

/// Somewhere in the run `action` was pending and the host performed it.
pub open spec fn performed(
    start: Extraction,
    replies: Seq<ExtractReply>,
    action: ExtractAction,
) -> bool {
    answered(start, replies, action, ExtractReply::Done)
}

/// The progress report that goes out with reply `i` of a run.
pub open spec fn report_at(
    start: Extraction,
    replies: Seq<ExtractReply>,
    i: int,
) -> Option<Progress> {
    after(start, replies.take(i)).report(replies[i])
}

/// The entry that an action is about, if it is about one.
pub open spec fn entry_of(action: ExtractAction) -> Option<usize> {
    match action {
        ExtractAction::CreateDirectory { entry } => Some(entry),
        ExtractAction::ProbeParent { entry } => Some(entry),
        ExtractAction::CreateParent { entry } => Some(entry),
        ExtractAction::CreateFile { entry } => Some(entry),
        ExtractAction::WriteContent { entry } => Some(entry),
        _ => None,
    }
}

/// Entry `k` has been dealt with in the run: a directory was created, a file
/// was created and its bytes were written, a rejected entry needs nothing.
/// An entry that cannot be read is never dealt with.
pub open spec fn written(
    start: Extraction,
    replies: Seq<ExtractReply>,
    entries: Seq<ArchiveEntry>,
    k: int,
) -> bool {
    match entries[k] {
        ArchiveEntry::Rejected => true,
        ArchiveEntry::Directory { .. } => performed(
            start,
            replies,
            ExtractAction::CreateDirectory { entry: k as usize },
        ),
        ArchiveEntry::File { .. } => performed(
            start,
            replies,
            ExtractAction::CreateFile { entry: k as usize },
        ) && performed(start, replies, ExtractAction::WriteContent { entry: k as usize }),
        ArchiveEntry::Unreadable { .. } => false,
        ArchiveEntry::Damaged { .. } => false,
    }
}

/// Every entry below `bound` has been dealt with in the run.
spec fn written_before(
    start: Extraction,
    replies: Seq<ExtractReply>,
    entries: Seq<ArchiveEntry>,
    bound: int,
) -> bool {
    forall|k: int| 0 <= k < bound ==> #[trigger] written(start, replies, entries, k)
}

/// The action writes below the target directory or reads the loaded archive.
pub open spec fn needs_fresh_target(action: ExtractAction) -> bool {
    match action {
        ExtractAction::LoadArchive => true,
        ExtractAction::CreateDirectory { .. } => true,
        ExtractAction::ProbeParent { .. } => true,
        ExtractAction::CreateParent { .. } => true,
        ExtractAction::CreateFile { .. } => true,
        ExtractAction::WriteContent { .. } => true,
        ExtractAction::Finish { outcome } => outcome is Ok,
        _ => false,
    }
}

/// What holds of the pending action at every point of a run.
spec fn on_track(start: Extraction, replies: Seq<ExtractReply>) -> bool {
    let state = after(start, replies);
    let entries = state.entries@;
    match state.pending {
        ExtractAction::CreateDirectory { entry } => {
            &&& entry < entries.len()
            &&& entries[entry as int] is Directory
            &&& written_before(start, replies, entries, entry as int)
        },
        ExtractAction::ProbeParent { entry } => {
            &&& entry < entries.len()
            &&& (entries[entry as int] is File || entries[entry as int] is Damaged)
            &&& written_before(start, replies, entries, entry as int)
        },
        ExtractAction::CreateParent { entry } => {
            &&& entry < entries.len()
            &&& (entries[entry as int] is File || entries[entry as int] is Damaged)
            &&& written_before(start, replies, entries, entry as int)
        },
        ExtractAction::CreateFile { entry } => {
            &&& entry < entries.len()
            &&& (entries[entry as int] is File || entries[entry as int] is Damaged)
            &&& written_before(start, replies, entries, entry as int)
        },
        ExtractAction::WriteContent { entry } => {
            &&& entry < entries.len()
            &&& entries[entry as int] is File
            &&& performed(start, replies, ExtractAction::CreateFile { entry })
            &&& written_before(start, replies, entries, entry as int)
        },
        ExtractAction::Finish { outcome } => outcome is Ok ==> written_before(
            start,
            replies,
            entries,
            entries.len() as int,
        ),
        _ => true,
    }
}

/// The target directory was cleared and created before the pending action,
/// where the pending action depends on it.
pub open spec fn target_prepared(start: Extraction, replies: Seq<ExtractReply>) -> bool {
    let pending = after(start, replies).pending;
    &&& pending == ExtractAction::RemoveTarget ==> answered(
        start,
        replies,
        ExtractAction::ProbeTarget,
        ExtractReply::Present,
    )
    &&& pending == ExtractAction::CreateTarget || needs_fresh_target(pending) ==> answered(
        start,
        replies,
        ExtractAction::ProbeTarget,
        ExtractReply::Absent,
    ) || performed(start, replies, ExtractAction::RemoveTarget)
    &&& needs_fresh_target(pending) ==> performed(start, replies, ExtractAction::CreateTarget)
}

proof fn lemma_answered_extends(
    start: Extraction,
    replies: Seq<ExtractReply>,
    action: ExtractAction,
    reply: ExtractReply,
)
    requires
        replies.len() > 0,
        answered(start, replies.drop_last(), action, reply),
    ensures
        answered(start, replies, action, reply),
{
    let shorter = replies.drop_last();
    let i = choose|i: int|
        0 <= i < shorter.len() && #[trigger] asked(start, shorter, i) == action && shorter[i]
            == reply;
    assert(shorter.take(i) == replies.take(i));
    assert(asked(start, replies, i) == action);
}

proof fn lemma_answered_last(start: Extraction, replies: Seq<ExtractReply>)
    requires
        replies.len() > 0,
    ensures
        answered(start, replies, after(start, replies.drop_last()).pending, replies.last()),
{
    let i = replies.len() - 1;
    assert(replies.take(i) == replies.drop_last());
    assert(asked(start, replies, i) == after(start, replies.drop_last()).pending);
}

proof fn lemma_written_extends(
    start: Extraction,
    replies: Seq<ExtractReply>,
    entries: Seq<ArchiveEntry>,
    bound: int,
)
    requires
        replies.len() > 0,
        written_before(start, replies.drop_last(), entries, bound),
    ensures
        written_before(start, replies, entries, bound),
{
    assert forall|k: int| 0 <= k < bound implies #[trigger] written(start, replies, entries, k) by {
        assert(written(start, replies.drop_last(), entries, k));
        match entries[k] {
            ArchiveEntry::Directory { .. } => {
                lemma_answered_extends(
                    start,
                    replies,
                    ExtractAction::CreateDirectory { entry: k as usize },
                    ExtractReply::Done,
                );
            },
            ArchiveEntry::File { .. } => {
                lemma_answered_extends(
                    start,
                    replies,
                    ExtractAction::CreateFile { entry: k as usize },
                    ExtractReply::Done,
                );
                lemma_answered_extends(
                    start,
                    replies,
                    ExtractAction::WriteContent { entry: k as usize },
                    ExtractReply::Done,
                );
            },
            _ => {},
        }
    }
}

/// Where [`settle`] lands: on the first entry at or after `from` that is not
/// rejected, or past the end if there is none.
proof fn lemma_settle(entries: Seq<ArchiveEntry>, from: int)
    requires
        0 <= from <= entries.len(),
        entries.len() <= usize::MAX,
    ensures
        match settle(entries, from) {
            ExtractAction::CreateDirectory { entry } => {
                &&& from <= entry < entries.len()
                &&& entries[entry as int] is Directory
                &&& forall|j: int| from <= j < entry ==> entries[j] is Rejected
            },
            ExtractAction::ProbeParent { entry } => {
                &&& from <= entry < entries.len()
                &&& (entries[entry as int] is File || entries[entry as int] is Damaged)
                &&& forall|j: int| from <= j < entry ==> entries[j] is Rejected
            },
            ExtractAction::Finish { outcome } => outcome is Ok ==> forall|j: int|
                from <= j < entries.len() ==> entries[j] is Rejected,
            _ => false,
        },
    decreases entries.len() - from,
{
    if from < entries.len() {
        if entries[from] is Rejected {
            lemma_settle(entries, from + 1);
        }
    }
}

/// After an entry has been dealt with, everything below the action that
/// [`settle`] picks next has been dealt with.
proof fn lemma_settled_is_on_track(
    start: Extraction,
    replies: Seq<ExtractReply>,
    entries: Seq<ArchiveEntry>,
    from: int,
)
    requires
        0 <= from <= entries.len(),
        entries.len() <= usize::MAX,
        written_before(start, replies, entries, from),
    ensures
        match settle(entries, from) {
            ExtractAction::CreateDirectory { entry } => {
                &&& entry < entries.len()
                &&& entries[entry as int] is Directory
                &&& written_before(start, replies, entries, entry as int)
            },
            ExtractAction::ProbeParent { entry } => {
                &&& entry < entries.len()
                &&& (entries[entry as int] is File || entries[entry as int] is Damaged)
                &&& written_before(start, replies, entries, entry as int)
            },
            ExtractAction::Finish { outcome } => outcome is Ok ==> written_before(
                start,
                replies,
                entries,
                entries.len() as int,
            ),
            _ => false,
        },
{
    lemma_settle(entries, from);
    match settle(entries, from) {
        ExtractAction::CreateDirectory { entry } => {
            assert forall|k: int| 0 <= k < entry implies #[trigger] written(
                start,
                replies,
                entries,
                k,
            ) by {
                if k >= from {
                    assert(entries[k] is Rejected);
                }
            }
        },
        ExtractAction::ProbeParent { entry } => {
            assert forall|k: int| 0 <= k < entry implies #[trigger] written(
                start,
                replies,
                entries,
                k,
            ) by {
                if k >= from {
                    assert(entries[k] is Rejected);
                }
            }
        },
        ExtractAction::Finish { outcome } => {
            if outcome is Ok {
                assert forall|k: int| 0 <= k < entries.len() implies #[trigger] written(
                    start,
                    replies,
                    entries,
                    k,
                ) by {
                    if k >= from {
                        assert(entries[k] is Rejected);
                    }
                }
            }
        },
        _ => {},
    }
}

proof fn lemma_on_track(start: Extraction, replies: Seq<ExtractReply>)
    requires
        start.pending == ExtractAction::OpenArchive,
    ensures
        on_track(start, replies),
    decreases replies.len(),
{
    if replies.len() > 0 {
        let shorter = replies.drop_last();
        let before = after(start, shorter);
        let reply = replies.last();
        let entries = before.entries@;
        lemma_on_track(start, shorter);
        lemma_answered_last(start, replies);
        match before.pending {
            ExtractAction::LoadArchive => {
                if let ExtractReply::Loaded { entries: loaded } = reply {
                    assert(loaded@.len() == loaded.len());
                    lemma_settled_is_on_track(start, replies, loaded@, 0);
                }
            },
            ExtractAction::CreateDirectory { entry } => {
                lemma_written_extends(start, replies, entries, entry as int);
                if reply == ExtractReply::Done {
                    assert(written(start, replies, entries, entry as int));
                    lemma_settled_is_on_track(start, replies, entries, entry + 1);
                }
            },
            ExtractAction::ProbeParent { entry } => {
                lemma_written_extends(start, replies, entries, entry as int);
            },
            ExtractAction::CreateParent { entry } => {
                lemma_written_extends(start, replies, entries, entry as int);
            },
            ExtractAction::CreateFile { entry } => {
                lemma_written_extends(start, replies, entries, entry as int);
            },
            ExtractAction::WriteContent { entry } => {
                lemma_written_extends(start, replies, entries, entry as int);
                lemma_answered_extends(
                    start,
                    replies,
                    ExtractAction::CreateFile { entry },
                    ExtractReply::Done,
                );
                if reply == ExtractReply::Done {
                    assert(written(start, replies, entries, entry as int));
                    lemma_settled_is_on_track(start, replies, entries, entry + 1);
                }
            },
            ExtractAction::Finish { outcome } => {
                if outcome is Ok {
                    lemma_written_extends(start, replies, entries, entries.len() as int);
                }
            },
            _ => {},
        }
    }
}

proof fn lemma_target_prepared(start: Extraction, replies: Seq<ExtractReply>)
    requires
        start.pending == ExtractAction::OpenArchive,
    ensures
        target_prepared(start, replies),
    decreases replies.len(),
{
    if replies.len() > 0 {
        let shorter = replies.drop_last();
        let before = after(start, shorter);
        lemma_target_prepared(start, shorter);
        lemma_on_track(start, shorter);
        lemma_answered_last(start, replies);
        if before.pending == ExtractAction::RemoveTarget {
            lemma_answered_extends(
                start,
                replies,
                ExtractAction::ProbeTarget,
                ExtractReply::Present,
            );
        }
        if before.pending == ExtractAction::CreateTarget || needs_fresh_target(before.pending) {
            if answered(start, shorter, ExtractAction::ProbeTarget, ExtractReply::Absent) {
                lemma_answered_extends(
                    start,
                    replies,
                    ExtractAction::ProbeTarget,
                    ExtractReply::Absent,
                );
            } else {
                lemma_answered_extends(
                    start,
                    replies,
                    ExtractAction::RemoveTarget,
                    ExtractReply::Done,
                );
            }
        }
        if needs_fresh_target(before.pending) {
            lemma_answered_extends(
                start,
                replies,
                ExtractAction::CreateTarget,
                ExtractReply::Done,
            );
        }
        if let ExtractAction::CreateDirectory { entry } = before.pending {
            lemma_settle(before.entries@, entry + 1);
        }
        if let ExtractAction::WriteContent { entry } = before.pending {
            lemma_settle(before.entries@, entry + 1);
        }
        if let ExtractReply::Loaded { entries: loaded } = replies.last() {
            assert(loaded@.len() == loaded.len());
            lemma_settle(loaded@, 0);
        }
    }
}

/// A run that ends in success has dealt with every entry of the archive.
///
/// For every run from the beginning whose last state is finished without a
/// failure, and for every entry `k` of the loaded archive: a directory entry
/// had its directory created, a file entry had its output file created and
/// its bytes written, each by an action that the host reported as performed;
/// and no entry of the archive was unreadable or damaged.
pub proof fn law_success_covers_every_entry(
    start: Extraction,
    replies: Seq<ExtractReply>,
    k: int,
)
    requires
        start.pending == ExtractAction::OpenArchive,
        after(start, replies).pending == (ExtractAction::Finish { outcome: Ok(()) }),
        0 <= k < after(start, replies).entries.len(),
    ensures
        written(start, replies, after(start, replies).entries@, k),
{
    lemma_on_track(start, replies);
}

/// Nothing is written before the target directory has been replaced.
///
/// For every run from the beginning: if the pending action loads the archive,
/// touches an entry, or is the successful end, then earlier in the run the
/// target directory was found absent or was removed, and it was created; if
/// the pending action creates the target, then earlier the target was found
/// absent or was removed; and the target is removed only after it was found
/// present. The law holds of every prefix of a run, which fixes the order.
pub proof fn law_target_is_replaced_first(start: Extraction, replies: Seq<ExtractReply>)
    requires
        start.pending == ExtractAction::OpenArchive,
    ensures
        target_prepared(start, replies),
{
    lemma_target_prepared(start, replies);
}

/// Only accepted entries are ever written.
///
/// For every run from the beginning: an action that is pending on an entry
/// names an entry of the loaded archive that has a path, a directory for
/// `CreateDirectory` and a file for the others. A rejected entry is never
/// the subject of an action.
pub proof fn law_only_accepted_entries_are_written(
    start: Extraction,
    replies: Seq<ExtractReply>,
)
    requires
        start.pending == ExtractAction::OpenArchive,
    ensures
        match after(start, replies).pending {
            ExtractAction::CreateDirectory { entry } => entry < after(start, replies).entries.len()
                && after(start, replies).entries[entry as int] is Directory,
            ExtractAction::ProbeParent { entry } => entry < after(start, replies).entries.len()
                && after(start, replies).entries[entry as int].path() is Some,
            ExtractAction::CreateParent { entry } => entry < after(start, replies).entries.len()
                && after(start, replies).entries[entry as int].path() is Some,
            ExtractAction::CreateFile { entry } => entry < after(start, replies).entries.len()
                && after(start, replies).entries[entry as int].path() is Some,
            ExtractAction::WriteContent { entry } => entry < after(start, replies).entries.len()
                && after(start, replies).entries[entry as int] is File,
            _ => true,
        },
{
    lemma_on_track(start, replies);
}

/// Every write goes to a confined path below the target.
///
/// For every run from the beginning over valid entries: an action that is
/// pending on an entry names an entry of the loaded archive whose path is
/// confined, so that the path, joined onto the target directory, does not
/// leave it. An entry without such a path is never the subject of an action.
pub proof fn law_writes_stay_below_the_target(start: Extraction, replies: Seq<ExtractReply>)
    requires
        start.pending == ExtractAction::OpenArchive,
        forall|k: int|
            0 <= k < after(start, replies).entries.len() ==> (#[trigger] after(
                start,
                replies,
            ).entries[k]).valid(),
    ensures
        entry_of(after(start, replies).pending) matches Some(entry) ==> {
            &&& entry < after(start, replies).entries.len()
            &&& after(start, replies).entries[entry as int].path() matches Some(path)
            &&& crate::path::is_confined(crate::path::path_bytes(path@))
        },
{
    lemma_on_track(start, replies);
    if let Some(entry) = entry_of(after(start, replies).pending) {
        assert(after(start, replies).entries[entry as int].valid());
    }
}

/// A finished run stays finished: no reply changes its outcome.
pub proof fn law_finish_is_final(state: Extraction, reply: ExtractReply)
    requires
        state.pending is Finish,
    ensures
        state.next(reply) == state,
        state.report(reply) is None,
{
}

proof fn lemma_prefix(start: Extraction, replies: Seq<ExtractReply>, j: int)
    requires
        0 <= j < replies.len(),
    ensures
        after(start, replies.take(j + 1)) == after(start, replies.take(j)).next(replies[j]),
{
    assert(replies.take(j + 1).drop_last() == replies.take(j));
}

/// Once the entries are being written, the archive stays as loaded and the
/// run moves forward through it: later actions are about the same entry or
/// a later one, until the run has finished.
proof fn lemma_entries_in_order(start: Extraction, replies: Seq<ExtractReply>, i: int, j: int)
    requires
        0 <= i <= j <= replies.len(),
        entry_of(after(start, replies.take(i)).pending) is Some || after(
            start,
            replies.take(i),
        ).pending is Finish,
    ensures
        after(start, replies.take(j)).entries == after(start, replies.take(i)).entries,
        after(start, replies.take(j)).pending is Finish || ({
            &&& entry_of(after(start, replies.take(j)).pending) is Some
            &&& entry_of(after(start, replies.take(i)).pending) is Some
            &&& entry_of(after(start, replies.take(j)).pending)->0 >= entry_of(
                after(start, replies.take(i)).pending,
            )->0
        }),
    decreases j - i,
{
    if i < j {
        lemma_entries_in_order(start, replies, i, j - 1);
        lemma_prefix(start, replies, j - 1);
        let before = after(start, replies.take(j - 1));
        assert(before.entries@.len() == before.entries.len());
        match before.pending {
            ExtractAction::CreateDirectory { entry } => {
                if entry < before.entries.len() {
                    lemma_settle(before.entries@, entry + 1);
                }
            },
            ExtractAction::WriteContent { entry } => {
                if entry < before.entries.len() {
                    lemma_settle(before.entries@, entry + 1);
                }
            },
            _ => {},
        }
    }
}

/// Extraction progress is the index of the entry that was written, out of
/// the number of entries in the archive.
///
/// Whenever a report goes out, the pending action was the creation of a
/// directory or the writing of a file's bytes, the host has performed it,
/// and the report stands for the index of that entry over the number of
/// entries. So the first entry reports zero and no report reaches one hundred
/// percent.
pub proof fn law_report_is_the_index_of_the_entry(state: Extraction, reply: ExtractReply)
    requires
        state.report(reply) is Some,
    ensures
        reply == ExtractReply::Done,
        state.pending is CreateDirectory || state.pending is WriteContent,
        state.report(reply)->0.kind == crate::progress::ProgressKind::Extract,
        state.report(reply)->0.done == entry_of(state.pending)->0,
        state.report(reply)->0.total == state.entries.len(),
        state.report(reply)->0.below_full(),
{
}

/// Extraction progress goes up with every report.
///
/// For every run: of two reports of the run, the later one is about a later
/// entry of the same archive, so its percentage is higher.
pub proof fn law_reports_increase(start: Extraction, replies: Seq<ExtractReply>, i: int, j: int)
    requires
        0 <= i < j < replies.len(),
        report_at(start, replies, i) is Some,
        report_at(start, replies, j) is Some,
    ensures
        report_at(start, replies, i)->0.total == report_at(start, replies, j)->0.total,
        report_at(start, replies, i)->0.done < report_at(start, replies, j)->0.done,
        report_at(start, replies, i)->0.at_most(report_at(start, replies, j)->0),
{
    let earlier = report_at(start, replies, i)->0;
    let later = report_at(start, replies, j)->0;
    let before = after(start, replies.take(i));
    law_report_is_the_index_of_the_entry(before, replies[i]);
    law_report_is_the_index_of_the_entry(after(start, replies.take(j)), replies[j]);
    lemma_prefix(start, replies, i);
    assert(before.entries@.len() == before.entries.len());
    lemma_settle(before.entries@, entry_of(before.pending)->0 + 1);
    lemma_entries_in_order(start, replies, i + 1, j);
    assert(earlier.done < later.done);
    assert(earlier.done * later.total <= later.done * earlier.total) by (nonlinear_arith)
        requires
            earlier.done < later.done,
            earlier.total == later.total,
    ;
}

} // verus!
