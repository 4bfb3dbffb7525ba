//! Streaming a response body into a temporary archive file.
//!
//! A [`Download`] is the state of one fetch. The host sends the request,
//! creates the file, and hands over the body chunk by chunk; [`download_file`]
//! keeps the tally and says what to do next. A progress report goes out after
//! every chunk that was written, but only if the response declared a positive
//! length. The first failure ends the fetch; the file that may exist by then
//! is left to the caller.

use crate::failure::{Failure, Stage};
use crate::progress::{download_report, Progress};
use vstd::prelude::*;
use vstd::string::StringExecFns;

verus! {

/// The decimal digit for a value below ten.
pub open spec fn digit(d: nat) -> char {
    if d == 0 {
        '0'
    } else if d == 1 {
        '1'
    } else if d == 2 {
        '2'
    } else if d == 3 {
        '3'
    } else if d == 4 {
        '4'
    } else if d == 5 {
        '5'
    } else if d == 6 {
        '6'
    } else if d == 7 {
        '7'
    } else if d == 8 {
        '8'
    } else {
        '9'
    }
}

/// The decimal numeral of `n`, without leading zeros.
pub open spec fn decimal(n: nat) -> Seq<char>
    decreases n,
{
    if n < 10 {
        seq![digit(n)]
    } else {
        decimal(n / 10).push(digit(n % 10))
    }
}

/// The name of the temporary archive file made at `millis` milliseconds
/// since the epoch: the decimal numeral of `millis`, then `.zip`.
pub open spec fn archive_name(millis: nat) -> Seq<char> {
    decimal(millis) + ".zip"@
}

fn digit_text(d: u8) -> (text: &'static str)
    requires
        d < 10,
    ensures
        text@ == seq![digit(d as nat)],
{
    proof {
        reveal_strlit("0");
        reveal_strlit("1");
        reveal_strlit("2");
        reveal_strlit("3");
        reveal_strlit("4");
        reveal_strlit("5");
        reveal_strlit("6");
        reveal_strlit("7");
        reveal_strlit("8");
        reveal_strlit("9");
    }
    let text = match d {
        0 => "0",
        1 => "1",
        2 => "2",
        3 => "3",
        4 => "4",
        5 => "5",
        6 => "6",
        7 => "7",
        8 => "8",
        _ => "9",
    };
    assert(text@ =~= seq![digit(d as nat)]);
    text
}

fn append_decimal(text: &mut String, n: u128)
    ensures
        final(text)@ == old(text)@ + decimal(n as nat),
    decreases n,
{
    if n >= 10 {
        append_decimal(text, n / 10);
    }
    let last: u8 = (n % 10) as u8;
    text.append(digit_text(last));
    assert(final(text)@ =~= old(text)@ + decimal(n as nat));
}

/// Computes [`archive_name`].
pub fn archive_file_name(millis: u128) -> (name: String)
    ensures
        name@ == archive_name(millis as nat),
{
    let mut name = String::new();
    append_decimal(&mut name, millis);
    name.append(".zip");
    assert(name@ =~= archive_name(millis as nat));
    name
}

/// What the host is asked to do next.
#[derive(Debug, PartialEq, Eq)]
pub enum FetchAction {
    /// Send the GET request and wait for the head of the response.
    SendRequest,
    /// Create the temporary archive file.
    CreateFile,
    /// Wait for the next chunk of the body.
    AwaitChunk,
    /// Append the chunk that just arrived, `len` bytes long, to the file.
    WriteChunk { len: u64 },
    /// Nothing more: the fetch has ended with `outcome`.
    Finish { outcome: Result<(), Failure> },
}

/// The outcome of the action that was pending.
#[derive(Debug, PartialEq, Eq)]
pub enum FetchReply {
    /// The response arrived; it declared this content length, if any.
    Responded { content_length: Option<u64> },
    /// The action was performed.
    Done,
    /// A chunk of `len` bytes arrived.
    Chunk { len: u64 },
    /// The body has ended.
    EndOfBody,
    /// The action failed for the given reason.
    Failed { cause: String },
}

/// The state of one fetch.
#[derive(Debug, PartialEq, Eq)]
pub struct Download {
    /// The action whose outcome is awaited.
    pub pending: FetchAction,
    /// The name of the temporary archive file.
    pub file_name: String,
    /// The length that the response declared, or zero if it declared none.
    pub total: u64,
    /// The bytes written to the file so far.
    pub downloaded: u64,
}

impl Download {
    /// A fetch that has not begun.
    pub open spec fn is_initial(self) -> bool {
        self.pending == FetchAction::SendRequest && self.total == 0 && self.downloaded == 0
    }

    /// The same fetch, waiting for `action`.
    pub open spec fn awaiting(self, action: FetchAction) -> Download {
        Download { pending: action, ..self }
    }

    /// The same fetch, ended by a failure at `stage`.
    pub open spec fn fail(self, stage: Stage, cause: String) -> Download {
        self.awaiting(FetchAction::Finish { outcome: Err(Failure { stage, cause }) })
    }

    /// The tally can take in what `reply` reports: the bytes written stay
    /// within a `u64`.
    pub open spec fn fits(self, reply: FetchReply) -> bool {
        match (self.pending, reply) {
            (FetchAction::WriteChunk { len }, FetchReply::Done) => self.downloaded + len
                <= u64::MAX,
            _ => true,
        }
    }

    /// The state after `reply` has answered the pending action. A reply that
    /// does not answer the pending action leaves the state as it is.
    pub open spec fn next(self, reply: FetchReply) -> Download {
        match (self.pending, reply) {
            (FetchAction::SendRequest, FetchReply::Responded { content_length }) => Download {
                pending: FetchAction::CreateFile,
                total: match content_length {
                    Some(declared) => declared,
                    None => 0,
                },
                ..self
            },
            (FetchAction::SendRequest, FetchReply::Failed { cause }) => self.fail(
                Stage::Request,
                cause,
            ),
            (FetchAction::CreateFile, FetchReply::Done) => self.awaiting(FetchAction::AwaitChunk),
            (FetchAction::CreateFile, FetchReply::Failed { cause }) => self.fail(
                Stage::CreateTempFile,
                cause,
            ),
            (FetchAction::AwaitChunk, FetchReply::Chunk { len }) => self.awaiting(
                FetchAction::WriteChunk { len },
            ),
            (FetchAction::AwaitChunk, FetchReply::EndOfBody) => self.awaiting(
                FetchAction::Finish { outcome: Ok(()) },
            ),
            (FetchAction::AwaitChunk, FetchReply::Failed { cause }) => self.fail(
                Stage::ReadChunk,
                cause,
            ),
            (FetchAction::WriteChunk { len }, FetchReply::Done) => Download {
                pending: FetchAction::AwaitChunk,
                downloaded: (self.downloaded + len) as u64,
                ..self
            },
            (FetchAction::WriteChunk { .. }, FetchReply::Failed { cause }) => self.fail(
                Stage::WriteChunk,
                cause,
            ),
            _ => self,
        }
    }

    /// The progress report that goes out when `reply` answers the pending
    /// action: one after each chunk that was written, if the response
    /// declared a positive length.
    pub open spec fn report(self, reply: FetchReply) -> Option<Progress> {
        match (self.pending, reply) {
            (FetchAction::WriteChunk { len }, FetchReply::Done) => download_report(
                (self.downloaded + len) as u64,
                self.total,
            ),
            _ => None,
        }
    }

    /// Begins a fetch whose temporary file is named after `millis`, the
    /// milliseconds since the epoch at which the fetch was requested.
    pub fn start(millis: u128) -> (session: Download)
        ensures
            session.is_initial(),
            session.file_name@ == archive_name(millis as nat),
    {
        Download {
            pending: FetchAction::SendRequest,
            file_name: archive_file_name(millis),
            total: 0,
            downloaded: 0,
        }
    }

    /// Decides [`Download::fits`].
    pub fn accepts(&self, reply: &FetchReply) -> (ok: bool)
        ensures
            ok == self.fits(*reply),
    {
        match (&self.pending, reply) {
            (FetchAction::WriteChunk { len }, FetchReply::Done) => *len <= u64::MAX
                - self.downloaded,
            _ => true,
        }
    }
}

fn failed(stage: Stage, cause: String) -> (action: FetchAction)
    ensures
        action == (FetchAction::Finish { outcome: Err(Failure { stage, cause }) }),
{
    FetchAction::Finish { outcome: Err(Failure { stage, cause }) }
}

/// Moves a fetch on by one reply: returns the state after `reply` has
/// answered the pending action, with the progress report to emit, if any.
pub fn download_file(session: Download, reply: FetchReply) -> (r: (Download, Option<Progress>))
    requires
        session.fits(reply),
    ensures
        r.0 == session.next(reply),
        r.1 == session.report(reply),
{
    let Download { pending, file_name, total, downloaded } = session;
    match (pending, reply) {
        (FetchAction::SendRequest, FetchReply::Responded { content_length }) => {
            let declared: u64 = match content_length {
                Some(declared) => declared,
                None => 0,
            };
            (
                Download { pending: FetchAction::CreateFile, file_name, total: declared, downloaded },
                None,
            )
        },
        (FetchAction::SendRequest, FetchReply::Failed { cause }) => (
            Download { pending: failed(Stage::Request, cause), file_name, total, downloaded },
            None,
        ),
        (FetchAction::CreateFile, FetchReply::Done) => (
            Download { pending: FetchAction::AwaitChunk, file_name, total, downloaded },
            None,
        ),
        (FetchAction::CreateFile, FetchReply::Failed { cause }) => (
            Download { pending: failed(Stage::CreateTempFile, cause), file_name, total, downloaded },
            None,
        ),
        (FetchAction::AwaitChunk, FetchReply::Chunk { len }) => (
            Download { pending: FetchAction::WriteChunk { len }, file_name, total, downloaded },
            None,
        ),
        (FetchAction::AwaitChunk, FetchReply::EndOfBody) => (
            Download {
                pending: FetchAction::Finish { outcome: Ok(()) },
                file_name,
                total,
                downloaded,
            },
            None,
        ),
        (FetchAction::AwaitChunk, FetchReply::Failed { cause }) => (
            Download { pending: failed(Stage::ReadChunk, cause), file_name, total, downloaded },
            None,
        ),
        (FetchAction::WriteChunk { len }, FetchReply::Done) => {
            let written: u64 = downloaded + len;
            (
                Download { pending: FetchAction::AwaitChunk, file_name, total, downloaded: written },
                Progress::download(written, total),
            )
        },
        (FetchAction::WriteChunk { .. }, FetchReply::Failed { cause }) => (
            Download { pending: failed(Stage::WriteChunk, cause), file_name, total, downloaded },
            None,
        ),
        (pending, _) => (Download { pending, file_name, total, downloaded }, None),
    }
}

/// The state after the replies of a run have answered, in order, the actions
/// that were pending in turn.
pub open spec fn after(start: Download, replies: Seq<FetchReply>) -> Download
    decreases replies.len(),
{
    if replies.len() == 0 {
        start
    } else {
        after(start, replies.drop_last()).next(replies.last())
    }
}

/// The action that reply `i` of a run answers.
pub open spec fn asked(start: Download, replies: Seq<FetchReply>, i: int) -> FetchAction {
    after(start, replies.take(i)).pending
}

/// Somewhere in the run `action` was pending and was answered with `reply`.
pub open spec fn answered(
    start: Download,
    replies: Seq<FetchReply>,
    action: FetchAction,
    reply: FetchReply,
) -> bool {
    exists|i: int|
        0 <= i < replies.len() && #[trigger] asked(start, replies, i) == action && replies[i]
            == reply
}

/// The progress report that goes out with reply `i` of a run.
pub open spec fn report_at(start: Download, replies: Seq<FetchReply>, i: int) -> Option<Progress> {
    after(start, replies.take(i)).report(replies[i])
}

/// Every reply of the run fits the tally at the point where it arrives.
pub open spec fn admissible(start: Download, replies: Seq<FetchReply>) -> bool {
    forall|i: int|
        0 <= i < replies.len() ==> (#[trigger] after(start, replies.take(i))).fits(replies[i])
}

/// Until the response has arrived nothing is declared and nothing written.
spec fn untouched_before_response(state: Download) -> bool {
    state.pending == FetchAction::SendRequest ==> state.total == 0 && state.downloaded == 0
}

proof fn lemma_prefix(start: Download, replies: Seq<FetchReply>, j: int)
    requires
        0 <= j < replies.len(),
    ensures
        after(start, replies.take(j + 1)) == after(start, replies.take(j)).next(replies[j]),
{
    assert(replies.take(j + 1).drop_last() == replies.take(j));
}

proof fn lemma_untouched(start: Download, replies: Seq<FetchReply>, j: int)
    requires
        start.is_initial(),
        0 <= j <= replies.len(),
    ensures
        untouched_before_response(after(start, replies.take(j))),
    decreases j,
{
    if j > 0 {
        lemma_untouched(start, replies, j - 1);
        lemma_prefix(start, replies, j - 1);
    }
}

/// Between two points of a run the tally does not shrink, and a declared
/// length stays as it is.
proof fn lemma_tally_grows(start: Download, replies: Seq<FetchReply>, i: int, j: int)
    requires
        start.is_initial(),
        admissible(start, replies),
        0 <= i <= j <= replies.len(),
    ensures
        after(start, replies.take(i)).downloaded <= after(start, replies.take(j)).downloaded,
        after(start, replies.take(i)).total > 0 ==> after(start, replies.take(j)).total == after(
            start,
            replies.take(i),
        ).total,
    decreases j - i,
{
    if i < j {
        lemma_tally_grows(start, replies, i, j - 1);
        lemma_untouched(start, replies, j - 1);
        lemma_prefix(start, replies, j - 1);
        assert(after(start, replies.take(j - 1)).fits(replies[j - 1]));
    }
}

/// A declared length in the tally was declared by the response.
proof fn lemma_declared(start: Download, replies: Seq<FetchReply>, j: int)
    requires
        start.is_initial(),
        0 <= j <= replies.len(),
        after(start, replies.take(j)).total > 0,
    ensures
        answered(
            start,
            replies,
            FetchAction::SendRequest,
            FetchReply::Responded { content_length: Some(after(start, replies.take(j)).total) },
        ),
    decreases j,
{
    if j > 0 {
        let before = after(start, replies.take(j - 1));
        lemma_prefix(start, replies, j - 1);
        lemma_untouched(start, replies, j - 1);
        if before.total > 0 {
            lemma_declared(start, replies, j - 1);
        } else {
            assert(asked(start, replies, j - 1) == FetchAction::SendRequest);
        }
    }
}

/// No progress is reported unless the response declared a positive length.
///
/// For every run from the beginning: a report that goes out with some reply
/// belongs to the download, and its total is positive and is the content
/// length that the response declared. A run whose response declared no
/// length, or zero, emits no report at all.
pub proof fn law_reports_need_declared_length(start: Download, replies: Seq<FetchReply>, i: int)
    requires
        start.is_initial(),
        0 <= i < replies.len(),
        report_at(start, replies, i) is Some,
    ensures
        report_at(start, replies, i)->0.kind == crate::progress::ProgressKind::Download,
        report_at(start, replies, i)->0.total > 0,
        answered(
            start,
            replies,
            FetchAction::SendRequest,
            FetchReply::Responded { content_length: Some(report_at(start, replies, i)->0.total) },
        ),
{
    lemma_declared(start, replies, i);
}

/// Download progress never goes down.
///
/// For every run from the beginning whose tally stays within a `u64`: of two
/// reports of the run, the percentage of the earlier one is at most the
/// percentage of the later one.
pub proof fn law_reports_never_decrease(
    start: Download,
    replies: Seq<FetchReply>,
    i: int,
    j: int,
)
    requires
        start.is_initial(),
        admissible(start, replies),
        0 <= i <= j < replies.len(),
        report_at(start, replies, i) is Some,
        report_at(start, replies, j) is Some,
    ensures
        report_at(start, replies, i)->0.at_most(report_at(start, replies, j)->0),
{
    let earlier = report_at(start, replies, i)->0;
    let later = report_at(start, replies, j)->0;
    lemma_prefix(start, replies, i);
    lemma_prefix(start, replies, j);
    assert(after(start, replies.take(i)).fits(replies[i]));
    assert(after(start, replies.take(j)).fits(replies[j]));
    lemma_tally_grows(start, replies, i, j);
    lemma_tally_grows(start, replies, i + 1, j + 1);
    assert(earlier.total == later.total);
    assert(earlier.done <= later.done);
    assert(earlier.done * later.total <= later.done * earlier.total) by (nonlinear_arith)
        requires
            earlier.done <= later.done,
            earlier.total == later.total,
    ;
}

/// Download progress stays between 0 and 100 as long as the body is not
/// longer than declared.
///
/// For every run from the beginning whose tally stays within a `u64` and
/// ends at or below the declared length: every report of the run has a
/// percentage in the closed range from 0 to 100.
pub proof fn law_reports_stay_in_range(start: Download, replies: Seq<FetchReply>, i: int)
    requires
        start.is_initial(),
        admissible(start, replies),
        after(start, replies).downloaded <= after(start, replies).total,
        0 <= i < replies.len(),
        report_at(start, replies, i) is Some,
    ensures
        report_at(start, replies, i)->0.in_range(),
{
    lemma_prefix(start, replies, i);
    assert(after(start, replies.take(i)).fits(replies[i]));
    lemma_tally_grows(start, replies, i, replies.len() as int);
    lemma_tally_grows(start, replies, i + 1, replies.len() as int);
    assert(replies.take(replies.len() as int) == replies);
}

/// A finished fetch stays finished: no reply changes its outcome.
pub proof fn law_finish_is_final(state: Download, reply: FetchReply)
    requires
        state.pending is Finish,
    ensures
        state.next(reply) == state,
        state.report(reply) is None,
{
}

} // verus!
