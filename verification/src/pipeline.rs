//! The whole operation: fetch the archive, extract it, remove the temporary
//! file.
//!
//! A [`Pipeline`] runs the three stages in this order and stops at the first
//! failure. A failure of the fetch or of the extraction is passed on as it
//! was reported, and nothing further is attempted: in particular the
//! temporary file is not removed then. Success is reported only after the
//! temporary file has been removed; if the removal fails, the operation has
//! failed, although the extracted content is in place.

use crate::failure::Stage;
use vstd::prelude::*;
use vstd::string::StringExecFns;

verus! {

/// Why the operation failed.
#[derive(Debug, PartialEq, Eq)]
pub enum PipelineFailure {
    /// The fetch or the extraction failed with this message.
    Reported { message: String },
    /// The temporary archive file could not be removed.
    Cleanup { cause: String },
}

impl PipelineFailure {
    /// The message of the failure: a reported message as it is, a failed
    /// cleanup with the prefix of its stage.
    pub open spec fn text(self) -> Seq<char> {
        match self {
            PipelineFailure::Reported { message } => message@,
            PipelineFailure::Cleanup { cause } => Stage::RemoveTempFile.prefix() + cause@,
        }
    }

    /// Renders the failure as the string that is handed to the caller.
    pub fn message(&self) -> (m: String)
        ensures
            m@ == self.text(),
    {
        match self {
            PipelineFailure::Reported { message } => message.clone(),
            PipelineFailure::Cleanup { cause } => {
                let mut m = String::from_str(Stage::RemoveTempFile.prefix_text());
                m.append(cause.as_str());
                m
            },
        }
    }
}

/// What the host is asked to do next.
#[derive(Debug, PartialEq, Eq)]
pub enum PipelineAction {
    /// Fetch `url` into a new file in the system's temporary directory.
    Fetch { url: String },
    /// Extract the archive file at `archive` into `target_dir`.
    Extract { archive: String, target_dir: String },
    /// Remove the temporary archive file at `archive`.
    RemoveArchive { archive: String },
    /// Nothing more: the operation has ended with `outcome`.
    Finish { outcome: Result<(), PipelineFailure> },
}

/// The outcome of the action that was pending.
#[derive(Debug, PartialEq, Eq)]
pub enum PipelineReply {
    /// The fetch succeeded; the archive is in the file at `archive`.
    Fetched { archive: String },
    /// The action was performed.
    Done,
    /// The action failed with the given message.
    Failed { message: String },
}

/// The state of one operation.
#[derive(Debug, PartialEq, Eq)]
pub struct Pipeline {
    /// The action whose outcome is awaited.
    pub pending: PipelineAction,
    /// The directory that the archive is extracted into.
    pub target_dir: String,
}

impl Pipeline {
    /// An operation that has not begun.
    pub open spec fn is_initial(self) -> bool {
        self.pending is Fetch
    }

    /// The same operation, waiting for `action`.
    pub open spec fn awaiting(self, action: PipelineAction) -> Pipeline {
        Pipeline { pending: action, target_dir: self.target_dir }
    }

    /// The state after `reply` has answered the pending action. A reply that
    /// does not answer the pending action leaves the state as it is.
    pub open spec fn next(self, reply: PipelineReply) -> Pipeline {
        match (self.pending, reply) {
            (PipelineAction::Fetch { .. }, PipelineReply::Fetched { archive }) => self.awaiting(
                PipelineAction::Extract { archive, target_dir: self.target_dir },
            ),
            (PipelineAction::Fetch { .. }, PipelineReply::Failed { message }) => self.awaiting(
                PipelineAction::Finish { outcome: Err(PipelineFailure::Reported { message }) },
            ),
            (PipelineAction::Extract { archive, .. }, PipelineReply::Done) => self.awaiting(
                PipelineAction::RemoveArchive { archive },
            ),
            (PipelineAction::Extract { .. }, PipelineReply::Failed { message }) => self.awaiting(
                PipelineAction::Finish { outcome: Err(PipelineFailure::Reported { message }) },
            ),
            (PipelineAction::RemoveArchive { .. }, PipelineReply::Done) => self.awaiting(
                PipelineAction::Finish { outcome: Ok(()) },
            ),
            (
                PipelineAction::RemoveArchive { .. },
                PipelineReply::Failed { message },
            ) => self.awaiting(
                PipelineAction::Finish { outcome: Err(PipelineFailure::Cleanup { cause: message }) },
            ),
            _ => self,
        }
    }

    /// Begins an operation that fetches `url` and extracts into `target_dir`.
    pub fn start(url: String, target_dir: String) -> (session: Pipeline)
        ensures
            session.pending == (PipelineAction::Fetch { url }),
            session.target_dir == target_dir,
    {
        Pipeline { pending: PipelineAction::Fetch { url }, target_dir }
    }
}

/// Moves the operation on by one reply: returns the state after `reply` has
/// answered the pending action.
pub fn download_and_unzip(session: Pipeline, reply: PipelineReply) -> (moved: Pipeline)
    ensures
        moved == session.next(reply),
{
    let Pipeline { pending, target_dir } = session;
    match (pending, reply) {
        (PipelineAction::Fetch { .. }, PipelineReply::Fetched { archive }) => {
            let into = target_dir.clone();
            Pipeline { pending: PipelineAction::Extract { archive, target_dir: into }, target_dir }
        },
        (PipelineAction::Fetch { .. }, PipelineReply::Failed { message }) => Pipeline {
            pending: PipelineAction::Finish { outcome: Err(PipelineFailure::Reported { message }) },
            target_dir,
        },
        (PipelineAction::Extract { archive, .. }, PipelineReply::Done) => Pipeline {
            pending: PipelineAction::RemoveArchive { archive },
            target_dir,
        },
        (PipelineAction::Extract { .. }, PipelineReply::Failed { message }) => Pipeline {
            pending: PipelineAction::Finish { outcome: Err(PipelineFailure::Reported { message }) },
            target_dir,
        },
        (PipelineAction::RemoveArchive { .. }, PipelineReply::Done) => Pipeline {
            pending: PipelineAction::Finish { outcome: Ok(()) },
            target_dir,
        },
        (PipelineAction::RemoveArchive { .. }, PipelineReply::Failed { message }) => Pipeline {
            pending: PipelineAction::Finish {
                outcome: Err(PipelineFailure::Cleanup { cause: message }),
            },
            target_dir,
        },
        (pending, _) => Pipeline { pending, target_dir },
    }
}

/// The state after the replies of a run have answered, in order, the actions
/// that were pending in turn.
pub open spec fn after(start: Pipeline, replies: Seq<PipelineReply>) -> Pipeline
    decreases replies.len(),
{
    if replies.len() == 0 {
        start
    } else {
        after(start, replies.drop_last()).next(replies.last())
    }
}

/// The action that reply `i` of a run answers.
pub open spec fn asked(start: Pipeline, replies: Seq<PipelineReply>, i: int) -> PipelineAction {
    after(start, replies.take(i)).pending
}

/// Somewhere in the run `action` was pending and was answered with `reply`.
pub open spec fn answered(
    start: Pipeline,
    replies: Seq<PipelineReply>,
    action: PipelineAction,
    reply: PipelineReply,
) -> bool {
    exists|i: int|
        0 <= i < replies.len() && #[trigger] asked(start, replies, i) == action && replies[i]
            == reply
}

/// In the run the archive was fetched into the file at `archive`, was
/// extracted from there into the target directory, and the file was removed.
pub open spec fn ran_to_completion(
    start: Pipeline,
    replies: Seq<PipelineReply>,
    archive: String,
) -> bool {
    &&& answered(start, replies, start.pending, PipelineReply::Fetched { archive })
    &&& answered(
        start,
        replies,
        PipelineAction::Extract { archive, target_dir: start.target_dir },
        PipelineReply::Done,
    )
    &&& answered(start, replies, PipelineAction::RemoveArchive { archive }, PipelineReply::Done)
}

/// The stages in the order in which an operation passes through them.
pub open spec fn rank(action: PipelineAction) -> int {
    match action {
        PipelineAction::Fetch { .. } => 0,
        PipelineAction::Extract { .. } => 1,
        PipelineAction::RemoveArchive { .. } => 2,
        PipelineAction::Finish { .. } => 3,
    }
}

proof fn lemma_prefix(start: Pipeline, replies: Seq<PipelineReply>, j: int)
    requires
        0 <= j < replies.len(),
    ensures
        after(start, replies.take(j + 1)) == after(start, replies.take(j)).next(replies[j]),
{
    assert(replies.take(j + 1).drop_last() == replies.take(j));
}

proof fn lemma_answered_extends(
    start: Pipeline,
    replies: Seq<PipelineReply>,
    action: PipelineAction,
    reply: PipelineReply,
)
    requires
        replies.len() > 0,
        answered(start, replies.drop_last(), action, reply),
    ensures
        answered(start, replies, action, reply),
{
    let shorter = replies.drop_last();
    let i = choose|i: int|
        0 <= i < shorter.len() && #[trigger] asked(start, shorter, i) == action && shorter[i]
            == reply;
    assert(shorter.take(i) == replies.take(i));
    assert(asked(start, replies, i) == action);
}

proof fn lemma_answered_last(start: Pipeline, replies: Seq<PipelineReply>)
    requires
        replies.len() > 0,
    ensures
        answered(start, replies, after(start, replies.drop_last()).pending, replies.last()),
{
    let i = replies.len() - 1;
    assert(replies.take(i) == replies.drop_last());
    assert(asked(start, replies, i) == after(start, replies.drop_last()).pending);
}

/// What the run has been through when a given action is pending.
spec fn history(start: Pipeline, replies: Seq<PipelineReply>) -> bool {
    let state = after(start, replies);
    &&& state.target_dir == start.target_dir
    &&& match state.pending {
        PipelineAction::Fetch { .. } => state.pending == start.pending,
        PipelineAction::Extract { archive, target_dir } => {
            &&& target_dir == start.target_dir
            &&& answered(start, replies, start.pending, PipelineReply::Fetched { archive })
        },
        PipelineAction::RemoveArchive { archive } => {
            &&& answered(start, replies, start.pending, PipelineReply::Fetched { archive })
            &&& answered(
                start,
                replies,
                PipelineAction::Extract { archive, target_dir: start.target_dir },
                PipelineReply::Done,
            )
        },
        PipelineAction::Finish { outcome } => outcome is Ok ==> exists|archive: String|
            #[trigger] ran_to_completion(start, replies, archive),
    }
}

proof fn lemma_history(start: Pipeline, replies: Seq<PipelineReply>)
    requires
        start.is_initial(),
    ensures
        history(start, replies),
    decreases replies.len(),
{
    if replies.len() > 0 {
        let shorter = replies.drop_last();
        let before = after(start, shorter);
        lemma_history(start, shorter);
        lemma_answered_last(start, replies);
        match before.pending {
            PipelineAction::Fetch { .. } => {},
            PipelineAction::Extract { archive, target_dir } => {
                lemma_answered_extends(
                    start,
                    replies,
                    start.pending,
                    PipelineReply::Fetched { archive },
                );
            },
            PipelineAction::RemoveArchive { archive } => {
                lemma_answered_extends(
                    start,
                    replies,
                    start.pending,
                    PipelineReply::Fetched { archive },
                );
                lemma_answered_extends(
                    start,
                    replies,
                    PipelineAction::Extract { archive, target_dir: start.target_dir },
                    PipelineReply::Done,
                );
                if replies.last() == PipelineReply::Done {
                    assert(ran_to_completion(start, replies, archive));
                }
            },
            PipelineAction::Finish { outcome } => {
                if outcome is Ok {
                    let archive = choose|archive: String| #[trigger]
                        ran_to_completion(start, shorter, archive);
                    lemma_answered_extends(
                        start,
                        replies,
                        start.pending,
                        PipelineReply::Fetched { archive },
                    );
                    lemma_answered_extends(
                        start,
                        replies,
                        PipelineAction::Extract { archive, target_dir: start.target_dir },
                        PipelineReply::Done,
                    );
                    lemma_answered_extends(
                        start,
                        replies,
                        PipelineAction::RemoveArchive { archive },
                        PipelineReply::Done,
                    );
                    assert(ran_to_completion(start, replies, archive));
                }
            },
        }
    }
}

/// The stages are passed in order: the rank of the pending action never
/// goes down along a run.
proof fn lemma_rank_grows(start: Pipeline, replies: Seq<PipelineReply>, i: int, j: int)
    requires
        0 <= i <= j <= replies.len(),
    ensures
        rank(after(start, replies.take(i)).pending) <= rank(after(start, replies.take(j)).pending),
        after(start, replies.take(i)).pending is Finish ==> after(start, replies.take(j)) == after(
            start,
            replies.take(i),
        ),
    decreases j - i,
{
    if i < j {
        lemma_rank_grows(start, replies, i, j - 1);
        lemma_prefix(start, replies, j - 1);
    }
}

/// After a fully successful run the temporary archive is gone.
///
/// For every run from the beginning that ends in success there is a file
/// such that, in the run, the fetch reported that file as the archive, the
/// extraction from it into the target directory was performed, and the
/// removal of that file was performed.
pub proof fn law_success_removes_the_archive(start: Pipeline, replies: Seq<PipelineReply>)
    requires
        start.is_initial(),
        after(start, replies).pending == (PipelineAction::Finish { outcome: Ok(()) }),
    ensures
        exists|archive: String| #[trigger] ran_to_completion(start, replies, archive),
{
    lemma_history(start, replies);
}

/// A failed stage ends the operation with the message it reported, and
/// nothing after that stage is attempted.
///
/// For every run from the beginning in which the fetch or the extraction was
/// answered with a failure: the run ends with that message, unchanged, as its
/// failure, and every action asked in the run ranks at or below the failed
/// stage. So after a failed fetch no extraction and no removal is asked, and
/// after a failed extraction no removal: the temporary file stays.
pub proof fn law_failure_stops_the_operation(
    start: Pipeline,
    replies: Seq<PipelineReply>,
    j: int,
    message: String,
)
    requires
        0 <= j < replies.len(),
        asked(start, replies, j) is Fetch || asked(start, replies, j) is Extract,
        replies[j] == (PipelineReply::Failed { message }),
    ensures
        after(start, replies).pending == (PipelineAction::Finish {
            outcome: Err(PipelineFailure::Reported { message }),
        }),
        forall|i: int|
            0 <= i < replies.len() ==> {
                ||| rank(#[trigger] asked(start, replies, i)) <= rank(asked(start, replies, j))
                ||| asked(start, replies, i) is Finish
            },
{
    lemma_prefix(start, replies, j);
    lemma_rank_grows(start, replies, j + 1, replies.len() as int);
    assert(replies.take(replies.len() as int) == replies);
    assert forall|i: int| 0 <= i < replies.len() implies {
        ||| rank(#[trigger] asked(start, replies, i)) <= rank(asked(start, replies, j))
        ||| asked(start, replies, i) is Finish
    } by {
        if i <= j {
            lemma_rank_grows(start, replies, i, j);
        } else {
            lemma_rank_grows(start, replies, j + 1, i);
        }
    }
}

/// A failed removal fails the operation.
///
/// Whatever came before: when the removal of the temporary file is answered
/// with a failure, the operation ends in a cleanup failure with that cause.
pub proof fn law_cleanup_failure_is_reported(state: Pipeline, cause: String)
    requires
        state.pending is RemoveArchive,
    ensures
        state.next(PipelineReply::Failed { message: cause }).pending == (PipelineAction::Finish {
            outcome: Err(PipelineFailure::Cleanup { cause }),
        }),
{
}

} // verus!
